use pdh_collector::PdhCollectError;
use pdh_collector::PdhCounterPathElement;
use pdh_collector::PdhCounterPathElementOptions;
use pdh_collector::error::PDH_MORE_DATA;
use pdh_collector::path::fill_counter_path;
use pdh_collector::path::pdh_get_counter_path_buff_size;
use pdh_collector::pdh_make_counter_path;
use widestring::U16CString;

fn element(object: &str, counter: &str, ops: PdhCounterPathElementOptions) -> PdhCounterPathElement {
    PdhCounterPathElement::new(object.to_string(), counter.to_string(), ops)
}

#[test]
fn test_pdh_make_counter_path_memory() {
    let element = PdhCounterPathElement::new(
        "Memory".to_string(),
        "Available Mbytes".to_string(),
        PdhCounterPathElementOptions { ..Default::default() },
    );
    let v = pdh_make_counter_path(&element).unwrap();

    assert_eq!(
        U16CString::from_vec_with_nul(v).unwrap(),
        U16CString::from_str("\\Memory\\Available Mbytes").unwrap()
    );
}

#[test]
fn test_pdh_make_counter_path_process() {
    let element = PdhCounterPathElement::new(
        "Process".to_string(),
        "% Processor Time".to_string(),
        PdhCounterPathElementOptions {
            instance_name: Some("code".to_string()),
            ..Default::default()
        },
    );
    let v = pdh_make_counter_path(&element).unwrap();

    assert_eq!(
        U16CString::from_vec_with_nul(v).unwrap(),
        U16CString::from_str("\\Process(code)\\% Processor Time").unwrap()
    );
}

#[test]
fn path_full_instance_form() {
    let e = element(
        "Process",
        "% Processor Time",
        PdhCounterPathElementOptions {
            parent_instance: Some("p0".to_string()),
            instance_name: Some("code".to_string()),
            instance_index: Some(3),
            ..Default::default()
        },
    );
    let v = pdh_make_counter_path(&e).unwrap();
    assert_eq!(
        U16CString::from_vec_with_nul(v).unwrap(),
        U16CString::from_str("\\Process(p0/code#3)\\% Processor Time").unwrap()
    );
}

#[test]
fn path_index_zero_is_not_written() {
    let e = element(
        "Process",
        "Thread Count",
        PdhCounterPathElementOptions {
            instance_name: Some("explorer".to_string()),
            instance_index: Some(0),
            ..Default::default()
        },
    );
    let v = pdh_make_counter_path(&e).unwrap();
    assert_eq!(
        U16CString::from_vec_with_nul(v).unwrap(),
        U16CString::from_str("\\Process(explorer)\\Thread Count").unwrap()
    );
}

#[test]
fn path_multi_digit_index() {
    let e = element(
        "Process",
        "ID Process",
        PdhCounterPathElementOptions {
            instance_name: Some("svc".to_string()),
            instance_index: Some(12305),
            ..Default::default()
        },
    );
    let v = pdh_make_counter_path(&e).unwrap();
    assert_eq!(
        U16CString::from_vec_with_nul(v).unwrap(),
        U16CString::from_str("\\Process(svc#12305)\\ID Process").unwrap()
    );
}

#[test]
fn path_machine_prefix() {
    let e = element(
        "Memory",
        "Available Mbytes",
        PdhCounterPathElementOptions {
            machine_name: Some("HOST7".to_string()),
            ..Default::default()
        },
    );
    let v = pdh_make_counter_path(&e).unwrap();
    assert_eq!(
        U16CString::from_vec_with_nul(v).unwrap(),
        U16CString::from_str("\\\\HOST7\\Memory\\Available Mbytes").unwrap()
    );
}

#[test]
fn path_non_ascii_names_encode_as_utf16() {
    let e = element(
        "M\u{e9}moire",
        "Octets disponibles \u{2014} total",
        PdhCounterPathElementOptions { ..Default::default() },
    );
    let v = pdh_make_counter_path(&e).unwrap();
    assert_eq!(
        U16CString::from_vec_with_nul(v).unwrap(),
        U16CString::from_str("\\M\u{e9}moire\\Octets disponibles \u{2014} total").unwrap()
    );
}

#[test]
fn path_supplementary_plane_char_uses_surrogate_pair() {
    let e = element(
        "Obj\u{1F4BE}",
        "Counter",
        PdhCounterPathElementOptions { ..Default::default() },
    );
    let v = pdh_make_counter_path(&e).unwrap();
    assert_eq!(
        U16CString::from_vec_with_nul(v).unwrap(),
        U16CString::from_str("\\Obj\u{1F4BE}\\Counter").unwrap()
    );
}

#[test]
fn path_embedded_nul_is_an_encoding_error() {
    let e = element(
        "Mem\u{0}ory",
        "Available Mbytes",
        PdhCounterPathElementOptions { ..Default::default() },
    );
    assert_eq!(pdh_make_counter_path(&e), Err(PdhCollectError::WinError(160)));
}

#[test]
fn path_embedded_nul_in_instance_is_an_encoding_error() {
    let e = element(
        "Process",
        "Thread Count",
        PdhCounterPathElementOptions {
            instance_name: Some("bad\u{0}name".to_string()),
            ..Default::default()
        },
    );
    assert_eq!(pdh_make_counter_path(&e), Err(PdhCollectError::WinError(160)));
}

#[test]
fn buff_size_counts_path_without_terminator() {
    let e = element(
        "Memory",
        "Available Mbytes",
        PdhCounterPathElementOptions { ..Default::default() },
    );
    // "\Memory\Available Mbytes" is 24 characters; the built buffer adds the
    // terminator.
    assert_eq!(pdh_get_counter_path_buff_size(&e), Ok(24));
    assert_eq!(pdh_make_counter_path(&e).unwrap().len(), 25);
}

#[test]
fn fill_into_undersized_buffer_reports_more_data() {
    let e = element(
        "Memory",
        "Available Mbytes",
        PdhCounterPathElementOptions { ..Default::default() },
    );
    let mut small = vec![0u16; 4];
    assert_eq!(
        fill_counter_path(&e, &mut small),
        Err(PdhCollectError::PdhStatus(PDH_MORE_DATA))
    );
    assert_eq!(small, vec![0u16; 4]);
}

#[test]
fn fill_into_sized_buffer_writes_path_and_terminator() {
    let e = element(
        "Memory",
        "Available Mbytes",
        PdhCounterPathElementOptions { ..Default::default() },
    );
    let size = pdh_get_counter_path_buff_size(&e).unwrap() as usize;
    let mut buff = vec![0xFFFFu16; size + 1];
    fill_counter_path(&e, &mut buff).unwrap();
    assert_eq!(
        U16CString::from_vec_with_nul(buff).unwrap(),
        U16CString::from_str("\\Memory\\Available Mbytes").unwrap()
    );
}
