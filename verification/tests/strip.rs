// Tests of PGP signature stripping and identifier truncation.

use githist::data::truncate_id;
use githist::sig::remove_pgp_signature;

#[test]
fn strips_signature_block_and_trailing_whitespace() {
    let message = "release\n-----BEGIN PGP SIGNATURE-----\niQEzBAABCAAdFiEE\n=abcd\n-----END PGP SIGNATURE-----\n";
    assert_eq!(remove_pgp_signature(message), "release");
}

#[test]
fn keeps_message_without_marker_unmodified() {
    let message = "plain release notes\nwith two lines\n";
    assert_eq!(remove_pgp_signature(message), message);
}

#[test]
fn strips_to_empty_when_marker_opens_the_message() {
    assert_eq!(remove_pgp_signature("-----BEGIN PGP SIGNATURE-----\nxyz\n"), "");
}

#[test]
fn trims_only_trailing_whitespace_of_the_kept_text() {
    let message = "  spaced out \t\n-----BEGIN PGP SIGNATURE-----\n";
    assert_eq!(remove_pgp_signature(message), "  spaced out");
}

#[test]
fn cuts_at_the_first_marker_occurrence() {
    let message = "a\n-----BEGIN PGP SIGNATURE-----\nb\n-----BEGIN PGP SIGNATURE-----\nc";
    assert_eq!(remove_pgp_signature(message), "a");
}

#[test]
fn stripping_twice_equals_stripping_once() {
    let samples = [
        "release\n-----BEGIN PGP SIGNATURE-----\nabc\n",
        "no signature here",
        "",
        "-----BEGIN PGP SIGNATURE-----",
        "  padded  ",
        "x\n-----BEGIN PGP SIGNATURE",
    ];
    for m in samples {
        let once = remove_pgp_signature(m);
        let twice = remove_pgp_signature(&once);
        assert_eq!(twice, once);
    }
}

#[test]
fn partial_marker_text_is_not_stripped() {
    let message = "mentions -----BEGIN PGP SIGNATURE---- only";
    assert_eq!(remove_pgp_signature(message), message);
}

#[test]
fn truncation_keeps_the_first_seven_characters() {
    assert_eq!(truncate_id("0123456789abcdef0123456789abcdef01234567"), "0123456");
    assert_eq!(truncate_id("0123456"), "0123456");
    assert_eq!(truncate_id("abc"), "abc");
    assert_eq!(truncate_id(""), "");
}
