//! Stripping the trailing PGP signature block from an annotated tag message.
//!
//! A signed tag's message ends in a detached signature block that begins
//! with a fixed marker line.  So that signed and unsigned tags render
//! comparably, the stored copy of the message is cut strictly before the
//! first occurrence of that marker and trimmed of trailing whitespace;
//! a message without the marker is stored unmodified.  Only the persisted
//! copy is touched — the underlying object keeps its signature.

use vstd::prelude::*;

use vstd::string::StrSliceExecFns;
use vstd::string::StringExecFns;

verus! {

/// The line that opens a detached PGP signature block.
pub open spec fn spec_marker() -> Seq<char> {
    "-----BEGIN PGP SIGNATURE-----"@
}

/// The marker occurs in `s` at position `i`.
pub open spec fn marker_at(s: Seq<char>, i: int) -> bool {
    &&& 0 <= i
    &&& i + spec_marker().len() <= s.len()
    &&& s.subrange(i, i + spec_marker().len()) == spec_marker()
}

/// The position of the first occurrence of the marker at or after `i`.
pub open spec fn spec_find_marker_from(s: Seq<char>, i: int) -> Option<int>
    decreases s.len() - i + 1,
{
    if i < 0 {
        Option::None
    } else if i + spec_marker().len() > s.len() {
        Option::None
    } else if s.subrange(i, i + spec_marker().len()) == spec_marker() {
        Option::Some(i)
    } else {
        spec_find_marker_from(s, i + 1)
    }
}

/// The position of the first occurrence of the marker in `s`.
pub open spec fn spec_find_marker(s: Seq<char>) -> Option<int> {
    spec_find_marker_from(s, 0)
}

/// Whether a character has the Unicode `White_Space` property, written out
/// as the table that `str::trim` goes by.
pub open spec fn is_ws_char(c: char) -> bool {
    ||| c as u32 == 0x9
    ||| c as u32 == 0xA
    ||| c as u32 == 0xB
    ||| c as u32 == 0xC
    ||| c as u32 == 0xD
    ||| c as u32 == 0x20
    ||| c as u32 == 0x85
    ||| c as u32 == 0xA0
    ||| c as u32 == 0x1680
    ||| (0x2000 <= c as u32 && c as u32 <= 0x200A)
    ||| c as u32 == 0x2028
    ||| c as u32 == 0x2029
    ||| c as u32 == 0x202F
    ||| c as u32 == 0x205F
    ||| c as u32 == 0x3000
}

/// Decide the `White_Space` property at run time.
fn is_ws(c: char) -> (b: bool)
    ensures
        b == is_ws_char(c),
{
    let u = c as u32;
    u == 0x9 || u == 0xA || u == 0xB || u == 0xC || u == 0xD || u == 0x20 || u == 0x85 || u == 0xA0
        || u == 0x1680 || (0x2000 <= u && u <= 0x200A) || u == 0x2028 || u == 0x2029 || u == 0x202F
        || u == 0x205F || u == 0x3000
}

/// `s` without its trailing whitespace.
pub open spec fn spec_trim_end(s: Seq<char>) -> Seq<char>
    decreases s.len(),
{
    if s.len() > 0 && is_ws_char(s.last()) {
        spec_trim_end(s.drop_last())
    } else {
        s
    }
}

/// The stored form of a tag message: everything strictly before the first
/// marker occurrence, with trailing whitespace trimmed; or the message
/// unmodified when the marker is absent.
pub open spec fn spec_strip_signature(s: Seq<char>) -> Seq<char> {
    match spec_find_marker(s) {
        Option::Some(i) => spec_trim_end(s.subrange(0, i)),
        Option::None => s,
    }
}

/// A found position is a first occurrence.
proof fn lemma_find_from_some(s: Seq<char>, start: int, found: int)
    requires
        spec_find_marker_from(s, start) == Option::Some(found),
    ensures
        start <= found,
        marker_at(s, found),
        forall|j: int| start <= j < found ==> !marker_at(s, j),
    decreases s.len() - start + 1,
{
    if start < 0 || start + spec_marker().len() > s.len() {
        // no occurrence can be reported from here
        assert(false);
    } else if s.subrange(start, start + spec_marker().len()) == spec_marker() {
        assert(found == start);
    } else {
        lemma_find_from_some(s, start + 1, found);
        assert(!marker_at(s, start));
    }
}

/// Trimming at the end yields a prefix of `s`.
proof fn lemma_trim_end_is_prefix(s: Seq<char>)
    ensures
        exists|en: int|
            0 <= en <= s.len() && spec_trim_end(s) == #[trigger] s.subrange(0, en),
    decreases s.len(),
{
    if s.len() > 0 && is_ws_char(s.last()) {
        lemma_trim_end_is_prefix(s.drop_last());
        let en = choose|en: int|
            0 <= en <= s.drop_last().len() && spec_trim_end(s.drop_last()) == #[trigger] s.drop_last().subrange(0, en);
        assert(s.drop_last().subrange(0, en) =~= s.subrange(0, en));
        assert(spec_trim_end(s) == s.subrange(0, en));
    } else {
        assert(s.subrange(0, s.len() as int) =~= s);
        assert(spec_trim_end(s) == s.subrange(0, s.len() as int));
    }
}

/// Stripping a message that contains the marker leaves no marker behind.
proof fn lemma_stripped_has_no_marker(s: Seq<char>, first: int)
    requires
        spec_find_marker(s) == Option::Some(first),
    ensures
        spec_find_marker(spec_strip_signature(s)) is None,
{
    reveal_strlit("-----BEGIN PGP SIGNATURE-----");
    lemma_find_from_some(s, 0, first);
    let p = s.subrange(0, first);
    let r = spec_strip_signature(s);
    assert(r == spec_trim_end(p));
    lemma_trim_end_is_prefix(p);
    let en = choose|en: int|
        0 <= en <= p.len() && spec_trim_end(p) == #[trigger] p.subrange(0, en);
    match spec_find_marker(r) {
        Option::Some(j) => {
            lemma_find_from_some(r, 0, j);
            // an occurrence inside the trimmed prefix would be an earlier
            // occurrence in `s`, against the minimality of `first`
            assert(r.subrange(j, j + spec_marker().len()) =~= s.subrange(
                j,
                j + spec_marker().len(),
            ));
            assert(marker_at(s, j));
            assert(j + spec_marker().len() <= en <= first);
            assert(spec_marker().len() > 0);
            assert(j < first);
            assert(false);
        },
        Option::None => {
        },
    }
}

/// Stripping is idempotent: a stripped message strips to itself,
/// whether or not the original contained the signature marker.
pub proof fn lemma_strip_signature_idempotent(m: Seq<char>)
    ensures
        spec_strip_signature(spec_strip_signature(m)) == spec_strip_signature(m),
{
    match spec_find_marker(m) {
        Option::Some(first) => {
            lemma_stripped_has_no_marker(m, first);
        },
        Option::None => {
        },
    }
}

/// Compare the characters of `s` at `i` against `marker`.
fn match_at(s: &str, i: usize, marker: &str) -> (m: bool)
    requires
        i + marker@.len() <= s@.len(),
    ensures
        m == (s@.subrange(i as int, i + marker@.len()) == marker@),
{
    let n = s.unicode_len();
    let mlen = marker.unicode_len();
    let mut j: usize = 0;
    while j < mlen
        invariant
            i + marker@.len() <= s@.len(),
            n == s@.len(),
            mlen == marker@.len(),
            0 <= j <= mlen,
            forall|k: int| 0 <= k < j ==> s@[i + k] == marker@[k],
        decreases mlen - j,
    {
        let a = s.get_char(i + j);
        let b = marker.get_char(j);
        if a != b {
            proof {
                assert(s@.subrange(i as int, i + marker@.len())[j as int] == s@[i + j]);
            }
            return false;
        }
        j += 1;
    }
    proof {
        assert(s@.subrange(i as int, i + marker@.len()) =~= marker@);
    }
    true
}

/// Find the first occurrence of the signature marker in `s`.
fn find_marker(s: &str) -> (r: Option<usize>)
    ensures
        r matches Some(i) ==> spec_find_marker(s@) == Option::Some(i as int),
        r is None ==> spec_find_marker(s@) is None,
{
    let marker: &str = "-----BEGIN PGP SIGNATURE-----";
    proof {
        reveal_strlit("-----BEGIN PGP SIGNATURE-----");
    }
    let mlen = marker.unicode_len();
    let n = s.unicode_len();
    if n < mlen {
        assert(spec_find_marker_from(s@, 0) is None);
        return None;
    }
    let mut i: usize = 0;
    while i <= n - mlen
        invariant
            n == s@.len(),
            mlen == spec_marker().len(),
            mlen >= 1,
            mlen <= n,
            marker@ == spec_marker(),
            0 <= i <= n,
            spec_find_marker(s@) == spec_find_marker_from(s@, i as int),
        decreases n - i,
    {
        if match_at(s, i, marker) {
            return Some(i);
        }
        proof {
            assert(spec_find_marker_from(s@, i as int) == spec_find_marker_from(
                s@,
                i + 1 as int,
            ));
        }
        i += 1;
    }
    assert(spec_find_marker_from(s@, i as int) is None);
    None
}

/// Characterize `spec_trim_end` by the first index after which everything
/// is whitespace.
proof fn lemma_trim_end_at(s: Seq<char>, en: int)
    requires
        0 <= en <= s.len(),
        forall|k: int| en <= k < s.len() ==> is_ws_char(#[trigger] s[k]),
        en > 0 ==> !is_ws_char(s[en - 1]),
    ensures
        spec_trim_end(s) == s.subrange(0, en),
    decreases s.len(),
{
    if s.len() > en {
        assert(is_ws_char(s.last()));
        lemma_trim_end_at(s.drop_last(), en);
        assert(s.drop_last().subrange(0, en) =~= s.subrange(0, en));
    } else {
        if en > 0 {
            assert(!is_ws_char(s.last()));
        }
        assert(s.subrange(0, en) =~= s);
    }
}

/// Cut `s` down to `s[..end]` with trailing whitespace removed.
fn trim_prefix(s: &str, end: usize) -> (r: String)
    requires
        end <= s@.len(),
    ensures
        r@ == spec_trim_end(s@.subrange(0, end as int)),
{
    let ghost p = s@.subrange(0, end as int);
    let mut en: usize = end;
    while en > 0 && is_ws(s.get_char(en - 1))
        invariant
            end <= s@.len(),
            0 <= en <= end,
            forall|k: int| en <= k < end ==> is_ws_char(#[trigger] s@[k]),
        decreases en,
    {
        en -= 1;
    }
    proof {
        assert forall|k: int| en <= k < p.len() implies is_ws_char(#[trigger] p[k]) by {
            assert(p[k] == s@[k]);
        }
        if en > 0 {
            assert(p[en - 1] == s@[en - 1]);
        }
        lemma_trim_end_at(p, en as int);
        assert(p.subrange(0, en as int) =~= s@.subrange(0, en as int));
    }
    let cut = s.substring_char(0, en);
    cut.to_owned()
}

/// Strip a trailing PGP signature block from a tag message: the stored text
/// is everything strictly before the first marker line, trimmed of
/// trailing whitespace; a message without the marker is kept unmodified.
pub fn remove_pgp_signature(message: &str) -> (r: String)
    ensures
        r@ == spec_strip_signature(message@),
{
    match find_marker(message) {
        Some(i) => {
            proof {
                lemma_find_from_some(message@, 0, i as int);
            }
            trim_prefix(message, i)
        },
        None => message.to_owned(),
    }
}

} // verus!
