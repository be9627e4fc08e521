use seq_init::ident::{build_id, build_id_checked};
use seq_init::init::Init;

#[test]
fn construct_id_test() {
    let path = "test_files/init/";
    let len: usize = 3;
    let sep = '_';
    let re = Init::new(path, len, sep, true);

    let fnames = "sample_buno_ABCD123_read1.fastq.gz";

    let id = re.construct_id(fnames);

    assert_eq!("sample_buno_ABCD123", id);
}

#[test]
fn too_few_tokens_is_an_error() {
    let path = "test_files/init/";
    let len: usize = 4;
    let sep = '_';
    let re = Init::new(path, len, sep, true);
    let fnames = "sample_buno_ABCD123_read1.fastq.gz";

    assert_eq!(None, re.construct_id_checked(fnames));
}

#[test]
fn single_token_count_takes_first_token() {
    assert_eq!("sample", build_id("sample_buno_read1.gz", '_', 1));
}

#[test]
fn empty_tokens_are_preserved() {
    assert_eq!("a__b", build_id("a__b___x", '_', 3));
}

#[test]
fn extension_tokens_are_discarded() {
    assert_eq!("one.two", build_id("one.two.three.four", '.', 2));
}

#[test]
fn derivation_is_idempotent() {
    let first = build_id("s1_s2_s3_r1.gz", '_', 2);
    let second = build_id("s1_s2_s3_r1.gz", '_', 2);
    assert_eq!(first, second);
}

#[test]
fn checked_derivation_agrees_with_plain() {
    let plain = build_id("sample_buno_ABCD123_read1.fastq.gz", '_', 3);
    let checked = build_id_checked("sample_buno_ABCD123_read1.fastq.gz", '_', 3);
    assert_eq!(Some(plain), checked);
}

#[test]
fn token_count_equal_to_total_is_an_error() {
    // Four tokens: the strict-greater-than rule refuses a count of four.
    assert_eq!(None, build_id_checked("sample_buno_ABCD123_read1.fastq.gz", '_', 4));
}

#[test]
fn separator_absent_from_filename_is_an_error() {
    assert_eq!(None, build_id_checked("plainname", '_', 1));
}
