use seq_init::init::Init;

#[test]
fn new_sets_the_output_stem() {
    let init = Init::new("data/", 3, '_', true);
    assert_eq!("yap-qc_input", init.fname().as_str());
    assert_eq!("data/", init.path());
}

#[test]
fn csv_mode_appends_csv_extension() {
    let mut init = Init::new("data/", 3, '_', true);
    init.get_fnames();
    assert_eq!("yap-qc_input.csv", init.fname().as_str());
}

#[test]
fn config_mode_appends_conf_extension() {
    let mut init = Init::new("data/", 3, '_', false);
    init.get_fnames();
    assert_eq!("yap-qc_input.conf", init.fname().as_str());
}

#[test]
fn csv_header_names_the_columns() {
    let init = Init::new("data/", 3, '_', true);
    assert_eq!("id,new_name", init.write_header());
}

#[test]
fn config_header_opens_the_section() {
    let init = Init::new("data/", 3, '_', false);
    assert_eq!("[seqs]", init.write_header());
}

#[test]
fn csv_entry_is_the_identifier_alone() {
    let init = Init::new("data/", 3, '_', true);
    assert_eq!("sample_buno_A1", init.write_content("sample_buno_A1", "/abs/dir"));
}

#[test]
fn config_entry_joins_identifier_and_path() {
    let init = Init::new("data/", 3, '_', false);
    assert_eq!("sample_buno_A1:/abs/dir/", init.write_content("sample_buno_A1", "/abs/dir"));
}
