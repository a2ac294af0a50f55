use qingjian_shell::registration::{
    class_object_step, clsid_key, guid_string, instance_step, log_line, module_path_len,
    reg_sz_bytes, registration_values, timestamp, wide_nul, ClassObjectStep, InstanceStep,
    CLSID_TEXT, CLSID_VALUE, PROFILE_VALUE, SERVICE_DESCRIPTION,
};

#[test]
fn the_registry_text_of_the_class_id_matches_its_value() {
    assert_eq!(guid_string(CLSID_VALUE), CLSID_TEXT);
    assert_eq!(
        guid_string(PROFILE_VALUE),
        "{8119F8E0-CF81-423B-9189-C0D7374324B3}"
    );
    assert_eq!(guid_string(0), "{00000000-0000-0000-0000-000000000000}");
}

#[test]
fn wide_strings_end_with_a_zero() {
    assert_eq!(wide_nul(SERVICE_DESCRIPTION), vec![0x9752, 0x7B80, 0]);
    assert_eq!(wide_nul(""), vec![0]);
    // outside the basic plane: a surrogate pair
    assert_eq!(wide_nul("\u{1F600}"), vec![0xD83D, 0xDE00, 0]);
    let expected: Vec<u16> = "a\u{1F600}b".encode_utf16().chain([0]).collect();
    assert_eq!(wide_nul("a\u{1F600}b"), expected);
}

#[test]
fn reg_sz_values_are_little_endian_with_terminator() {
    assert_eq!(reg_sz_bytes("A"), vec![0x41, 0, 0, 0]);
    assert_eq!(reg_sz_bytes("青"), vec![0x52, 0x97, 0, 0]);
}

#[test]
fn registration_writes_the_class_and_its_server() {
    assert_eq!(clsid_key(CLSID_TEXT), format!("CLSID\\{CLSID_TEXT}"));
    let values = registration_values(CLSID_TEXT, SERVICE_DESCRIPTION, "C:\\qj\\tsf.dll");
    assert_eq!(values.len(), 3);
    assert_eq!(values[0].key, "CLSID\\{4FDCA82D-E923-49BF-9E75-BB906B93B8BB}");
    assert_eq!(values[0].name, None);
    assert_eq!(values[0].data, "青简");
    let inproc = "CLSID\\{4FDCA82D-E923-49BF-9E75-BB906B93B8BB}\\InprocServer32";
    assert_eq!(values[1].key, inproc);
    assert_eq!(values[1].name, None);
    assert_eq!(values[1].data, "C:\\qj\\tsf.dll");
    assert_eq!(values[2].key, inproc);
    assert_eq!(values[2].name.as_deref(), Some("ThreadingModel"));
    assert_eq!(values[2].data, "Apartment");
}

#[test]
fn module_path_must_fit_the_buffer() {
    assert_eq!(module_path_len(0, 260), None);
    assert_eq!(module_path_len(260, 260), None);
    assert_eq!(module_path_len(42, 260), Some(42));
}

#[test]
fn com_entry_points_check_their_arguments() {
    assert_eq!(class_object_step(true, CLSID_VALUE), ClassObjectStep::Fail);
    assert_eq!(class_object_step(false, 7), ClassObjectStep::ClassNotAvailable);
    assert_eq!(class_object_step(false, CLSID_VALUE), ClassObjectStep::Query);
    assert_eq!(instance_step(true, true), InstanceStep::NoAggregation);
    assert_eq!(instance_step(false, true), InstanceStep::Fail);
    assert_eq!(instance_step(false, false), InstanceStep::Create);
}

#[test]
fn log_lines_carry_time_and_process() {
    assert_eq!(timestamp(2024, 3, 5, 9, 7, 3, 45), "2024-03-05 09:07:03.045");
    assert_eq!(timestamp(12345, 12, 31, 23, 59, 59, 999), "12345-12-31 23:59:59.999");
    assert_eq!(
        log_line("2024-03-05 09:07:03.045", 42, "hi"),
        "2024-03-05 09:07:03.045 [pid 42] hi"
    );
}
