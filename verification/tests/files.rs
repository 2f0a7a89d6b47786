use rwkv_hip::model::load::{is_loadable, open_file};
use rwkv_hip::model::load_run::{transpose_2d, ModelLoadError};
use rwkv_hip::model::names::split_name;
use rwkv_hip::tensor_file::{Entry, TensorFile, Values};
use safetensors::tensor::{serialize, Dtype, TensorView};

fn file_of(tensors: &[(&str, Dtype, Vec<usize>, Vec<u8>)]) -> Vec<u8> {
    let views: Vec<(String, TensorView<'_>)> = tensors
        .iter()
        .map(|(name, dtype, shape, data)| {
            (name.to_string(), TensorView::new(*dtype, shape.clone(), data).unwrap())
        })
        .collect();
    serialize(views, None).unwrap()
}

fn values(file: &TensorFile, name: &str) -> Values {
    file.find(name).unwrap().values.clone()
}

#[test]
fn half_precision_is_read_little_endian() {
    let bytes = file_of(&[("a", Dtype::F16, vec![3], vec![0x00, 0x3c, 0x01, 0x80, 0xff, 0x7b])]);
    let file = TensorFile::read(&bytes).unwrap();
    assert_eq!(file.len(), 1);
    let entry = file.find("a").unwrap();
    assert_eq!(entry.name, "a");
    assert_eq!(entry.kind, "F16");
    assert_eq!(entry.shape, vec![3]);
    assert!(matches!(&entry.values, Values::Half(v) if *v == vec![0x3c00, 0x8001, 0x7bff]));
    assert!(file.find("b").is_none());
}

#[test]
fn single_precision_waits_to_be_narrowed() {
    let data: Vec<u8> = [1.5f32, -2.0].iter().flat_map(|x| x.to_le_bytes()).collect();
    let bytes = file_of(&[("w", Dtype::F32, vec![1, 2], data)]);
    let file = TensorFile::read(&bytes).unwrap();
    assert!(!is_loadable(&file));
    assert_eq!(file.singles(), vec![vec![1.5f32.to_bits(), (-2.0f32).to_bits()]]);
    let halves: Vec<Vec<u16>> = file
        .singles()
        .iter()
        .map(|v| v.iter().map(|x| half::f16::from_f32(f32::from_bits(*x)).to_bits()).collect())
        .collect();
    let file = file.narrow(halves).unwrap();
    assert!(is_loadable(&file));
    assert!(matches!(values(&file, "w"), Values::Half(v) if v == vec![0x3e00, 0xc000]));
    assert_eq!(file.singles(), vec![Vec::<u32>::new()]);
}

#[test]
fn narrowing_keeps_the_counts() {
    let data: Vec<u8> = 1.0f32.to_le_bytes().to_vec();
    let bytes = file_of(&[("w", Dtype::F32, vec![1], data)]);
    let file = TensorFile::read(&bytes).unwrap();
    assert!(file.narrow(vec![vec![1, 2]]).is_none());
    let file = TensorFile::read(&bytes).unwrap();
    assert!(file.narrow(vec![]).is_none());
}

#[test]
fn brain_floats_are_widened() {
    let bytes = file_of(&[("x", Dtype::BF16, vec![2], vec![0x80, 0x3f, 0x00, 0xc0])]);
    let file = TensorFile::read(&bytes).unwrap();
    assert!(matches!(values(&file, "x"), Values::Single(v)
        if v == vec![1.0f32.to_bits(), (-2.0f32).to_bits()]));
}

#[test]
fn other_element_types_are_kept_by_name_only() {
    let bytes = file_of(&[("ids", Dtype::I64, vec![1], vec![7, 0, 0, 0, 0, 0, 0, 0])]);
    let file = TensorFile::read(&bytes).unwrap();
    let entry = file.find("ids").unwrap();
    assert_eq!(entry.kind, "I64");
    assert!(matches!(entry.values, Values::Unsupported));
    assert!(is_loadable(&file));
}

#[test]
fn every_name_of_a_file_is_found() {
    let bytes = file_of(&[
        ("blocks.0.att.w0", Dtype::F16, vec![1], vec![1, 0]),
        ("blocks.10.att.w0", Dtype::F16, vec![1], vec![2, 0]),
        ("emb.weight", Dtype::F16, vec![2], vec![3, 0, 4, 0]),
    ]);
    let file = TensorFile::read(&bytes).unwrap();
    assert_eq!(file.len(), 3);
    assert!(matches!(values(&file, "blocks.0.att.w0"), Values::Half(v) if v == vec![1]));
    assert!(matches!(values(&file, "blocks.10.att.w0"), Values::Half(v) if v == vec![2]));
    assert!(matches!(values(&file, "emb.weight"), Values::Half(v) if v == vec![3, 4]));
}

#[test]
fn bytes_that_are_no_file_are_refused() {
    assert!(TensorFile::read(&[1, 2, 3]).is_err());
    let e = open_file(&[1, 2, 3]).unwrap_err();
    match &e {
        ModelLoadError::SafeTensor(m) => assert!(m.starts_with("Failed to parse SafeTensors: ")),
        _ => panic!("a parse error was expected"),
    }
    assert!(e.to_text().starts_with("SafeTensor error: Failed to parse SafeTensors: "));
}

#[test]
fn entries_must_hold_what_their_shapes_ask_for() {
    let entry = |shape: Vec<usize>, n: usize| Entry {
        name: "a".to_string(),
        kind: "F16".to_string(),
        shape,
        values: Values::Half(vec![0; n]),
    };
    assert!(TensorFile::of(vec![entry(vec![2, 3], 6)]).is_some());
    assert!(TensorFile::of(vec![entry(vec![2, 3], 5)]).is_none());
    assert!(TensorFile::of(vec![entry(vec![], 1)]).is_some());
    assert!(TensorFile::of(vec![entry(vec![0, 3], 0)]).is_some());
}

#[test]
fn a_matrix_is_turned_to_columns_and_back() {
    let data: Vec<u16> = vec![1, 2, 3, 4, 5, 6];
    let columns = transpose_2d(&data, 2, 3);
    assert_eq!(columns, vec![1, 4, 2, 5, 3, 6]);
    assert_eq!(transpose_2d(&columns, 3, 2), data);
}

#[test]
fn names_of_layers_are_taken_apart() {
    let n = split_name("blocks.10.att.w0");
    assert_eq!(n.layer, Some(10));
    let suffix: String = n.chars[n.suffix..].iter().collect();
    assert_eq!(suffix, "att.w0");
    assert_eq!(split_name("emb.weight").layer, None);
    assert_eq!(split_name("blocks.x.att.w0").layer, None);
    assert_eq!(split_name("blocks.99999999999999999999999.att").layer, None);
}

#[test]
fn errors_say_where_they_come_from() {
    assert_eq!(ModelLoadError::Io("gone".to_string()).to_text(), "IO error: gone");
    assert_eq!(ModelLoadError::InvalidModel("odd".to_string()).to_text(), "Invalid model: odd");
}
