use seq_init::init::Init;
use seq_init::matcher::matches_filename;

#[test]
fn regex_test() {
    let path = "test_files/init/";
    let len: usize = 3;
    let sep = '_';
    let re = Init::new(path, len, sep, true);
    let zipped_read = "sample_buno_clean_l001_read1_001.fastq.gz";
    let unzipped_read = "sample_buno_clean_l001_read1_001.fastq";

    assert_eq!(true, re.re_matches_lazy(zipped_read));
    assert_eq!(false, re.re_matches_lazy(unzipped_read));
}

#[test]
fn regex_false_test() {
    let path = "test_files/init/";
    let len: usize = 3;
    let sep = '_';
    let re = Init::new(path, len, sep, true);
    let zipped_read = "sample_buno_clean_read1_lane1_001.fastq.gz";
    let unzipped_read = "sample_buno_clean_read1_l1_001.fastq";

    assert_eq!(false, re.re_matches_lazy(zipped_read));
    assert_eq!(false, re.re_matches_lazy(unzipped_read));
}

#[test]
fn long_words_match() {
    assert!(matches_filename("sample_lane003_read1_001.fastq.gz"));
}

#[test]
fn case_variants_match() {
    assert!(matches_filename("sample_LANE003_READ1_001.fastq.gz"));
    assert!(matches_filename("sample_Lane003_Read1_001.fastq.gz"));
    assert!(matches_filename("sample_L003_R1_001.fastq.gz"));
}

#[test]
fn hyphen_separators_match() {
    assert!(matches_filename("sample-lane003-read1-001.fastq.gz"));
    assert!(matches_filename("sample-l003_r1.gz"));
}

#[test]
fn gzip_suffix_matches() {
    assert!(matches_filename("sample_l003_r1_001.fastq.gzip"));
}

#[test]
fn no_archive_suffix_is_rejected() {
    assert!(!matches_filename("sample_lane003_read1_001.fastq"));
    assert!(!matches_filename("sample_lane003_read1_001.fastq.bz2"));
}

#[test]
fn gz_before_run_is_rejected() {
    assert!(!matches_filename("sample.gz_lane003_read1_001"));
}

#[test]
fn wrong_lane_digit_count_is_rejected() {
    assert!(!matches_filename("sample_lane03_read1_001.fastq.gz"));
    assert!(!matches_filename("sample_l1_read1_001.fastq.gz"));
}

#[test]
fn missing_separator_boundary_is_rejected() {
    assert!(!matches_filename("samplelane003_read1_001.fastq.gz"));
    assert!(!matches_filename("sample_lane003read1_001.fastq.gz"));
}

#[test]
fn swapped_order_is_rejected() {
    assert!(!matches_filename("sample_read1_lane003.fastq.gz"));
}

#[test]
fn empty_filename_is_rejected() {
    assert!(!matches_filename(""));
}

#[test]
fn matcher_is_idempotent() {
    let name = "sample_buno_clean_l001_read1_001.fastq.gz";
    assert_eq!(matches_filename(name), matches_filename(name));
}
