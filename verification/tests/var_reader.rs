use yourcontrols::var_reader::{InDataTypes, ReadError, VarReader, VarReaderTypes};

fn write_i32(buf: &mut Vec<u8>, n: i32) {
    buf.extend_from_slice(&n.to_le_bytes());
}

fn write_i64(buf: &mut Vec<u8>, n: i64) {
    buf.extend_from_slice(&n.to_le_bytes());
}

fn write_f64(buf: &mut Vec<u8>, n: f64) {
    buf.extend_from_slice(&n.to_le_bytes());
}

fn write_bool(buf: &mut Vec<u8>, b: bool) {
    write_i32(buf, b as i32);
}

fn value_of(
    map: &yourcontrols::assoc::AssocList<String, VarReaderTypes>,
    name: &str,
) -> VarReaderTypes {
    *map.get(&name.to_string()).expect("value read")
}

#[test]
fn test_read() {
    let mut definitions = VarReader::new();

    definitions.add_definition("PLANE LATITUDE", InDataTypes::F64);
    definitions.add_definition("PLANE LONGITUDE", InDataTypes::F64);

    let mut writer = Vec::new();
    write_i32(&mut writer, 0);
    write_f64(&mut writer, 42.0);
    write_i32(&mut writer, 1);
    write_f64(&mut writer, 128.0);

    let value = definitions
        .read_from_bytes(definitions.get_number_definitions(), &writer)
        .unwrap();
    assert_eq!(value_of(&value, "PLANE LATITUDE"), VarReaderTypes::F64(42.0f64.to_bits()));
    assert_eq!(value_of(&value, "PLANE LONGITUDE"), VarReaderTypes::F64(128.0f64.to_bits()));

    // Test a mix of datatypes
    definitions.add_definition("ELT ACTIVATED", InDataTypes::Bool);
    definitions.add_definition("Some enum", InDataTypes::I32);
    definitions.add_definition("Some big enum", InDataTypes::I64);

    write_i32(&mut writer, 2);
    write_bool(&mut writer, false);
    write_i32(&mut writer, 3);
    write_i32(&mut writer, 1);
    write_i32(&mut writer, 4);
    write_i64(&mut writer, 3);

    let value = definitions
        .read_from_bytes(definitions.get_number_definitions(), &writer)
        .unwrap();

    assert_eq!(value_of(&value, "ELT ACTIVATED"), VarReaderTypes::Bool(false));
    assert_eq!(value_of(&value, "Some enum"), VarReaderTypes::I32(1));
    assert_eq!(value_of(&value, "Some big enum"), VarReaderTypes::I64(3));

    // Test bad data
    write_i32(&mut writer, 100);
    write_bool(&mut writer, false);

    assert!(definitions
        .read_from_bytes(definitions.get_number_definitions() + 1, &writer)
        .is_err());
}

#[test]
fn test_write_and_read_back() {
    let mut definitions = VarReader::new();

    definitions.add_definition("PLANE LATITUDE", InDataTypes::F64);
    definitions.add_definition("PLANE LONGITUDE", InDataTypes::F64);

    let new_data = vec![
        ("PLANE LATITUDE".to_string(), VarReaderTypes::F64(42.0f64.to_bits())),
        ("PLANE LONGITUDE".to_string(), VarReaderTypes::F64(128.0f64.to_bits())),
    ];

    let data = definitions.write_to_data(&new_data);

    // Read
    let values = definitions
        .read_from_bytes(definitions.get_number_definitions(), &data)
        .unwrap();
    assert_eq!(value_of(&values, "PLANE LATITUDE"), VarReaderTypes::F64(42.0f64.to_bits()));
    assert_eq!(value_of(&values, "PLANE LONGITUDE"), VarReaderTypes::F64(128.0f64.to_bits()));
}

#[test]
fn add_definition_returns_consecutive_ids() {
    let mut definitions = VarReader::new();
    assert_eq!(definitions.get_number_definitions(), 0);
    assert_eq!(definitions.add_definition("A", InDataTypes::I32), 0);
    assert_eq!(definitions.add_definition("B", InDataTypes::Bool), 1);
    assert_eq!(definitions.get_number_definitions(), 2);
}

#[test]
fn write_uses_the_last_definition_of_a_name_and_eight_value_bytes() {
    let mut definitions = VarReader::new();
    definitions.add_definition("X", InDataTypes::I64);
    definitions.add_definition("Y", InDataTypes::I64);
    definitions.add_definition("X", InDataTypes::I64);
    let data = definitions.write_to_data(&vec![("X".to_string(), VarReaderTypes::I64(-2))]);
    let mut expected = Vec::new();
    expected.extend_from_slice(&2u32.to_le_bytes());
    expected.extend_from_slice(&(-2i64).to_le_bytes());
    assert_eq!(data, expected);

    let data = definitions.write_to_data(&vec![("Y".to_string(), VarReaderTypes::Bool(true))]);
    let mut expected = Vec::new();
    expected.extend_from_slice(&1u32.to_le_bytes());
    expected.extend_from_slice(&1i64.to_le_bytes());
    assert_eq!(data, expected);
}

#[test]
fn read_reports_missing_data_and_unknown_ids() {
    let mut definitions = VarReader::new();
    definitions.add_definition("A", InDataTypes::I64);

    let mut short = Vec::new();
    write_i32(&mut short, 0);
    write_i32(&mut short, 7);
    assert_eq!(definitions.read_from_bytes(1, &short).err(), Some(ReadError::OutOfData));
    assert_eq!(definitions.read_from_bytes(1, &[1, 2]).err(), Some(ReadError::OutOfData));

    let mut unknown = Vec::new();
    write_i32(&mut unknown, 5);
    write_i64(&mut unknown, 7);
    assert_eq!(definitions.read_from_bytes(1, &unknown).err(), Some(ReadError::NotFound));

    // Nothing to read is no error
    assert_eq!(definitions.read_from_bytes(0, &[]).unwrap().len(), 0);
}

#[test]
fn later_items_replace_earlier_ones() {
    let mut definitions = VarReader::new();
    definitions.add_definition("A", InDataTypes::I32);
    let mut bytes = Vec::new();
    write_i32(&mut bytes, 0);
    write_i32(&mut bytes, -5);
    write_i32(&mut bytes, 0);
    write_i32(&mut bytes, 9);
    let values = definitions.read_from_bytes(2, &bytes).unwrap();
    assert_eq!(values.len(), 1);
    assert_eq!(value_of(&values, "A"), VarReaderTypes::I32(9));
}
