use digit_synthesis::dataset::{
    create_fakes, label_records, label_row, load, load_mnist, mnist_with_fakes, parse_label, DataType,
    DatasetError, LabelError, TrainingPlan,
};
use digit_synthesis::ratio::Ratio;
use digit_synthesis::target::TargetVector;

fn bytes(text: &str) -> Vec<u8> {
    text.as_bytes().to_vec()
}

fn fields(texts: &[&str]) -> Vec<Vec<u8>> {
    texts.iter().map(|text| bytes(text)).collect()
}

#[test]
fn parse_label_reads_decimal_digits() {
    assert_eq!(parse_label(&bytes("7")), Some(7));
    assert_eq!(parse_label(&bytes("0")), Some(0));
    assert_eq!(parse_label(&bytes("10")), Some(10));
    assert_eq!(parse_label(&bytes("007")), Some(7));
    assert_eq!(parse_label(&bytes("+7")), Some(7));
    assert_eq!(parse_label(&bytes("60000")), Some(60000));
}

#[test]
fn parse_label_refuses_what_is_no_number() {
    assert_eq!(parse_label(&bytes("")), None);
    assert_eq!(parse_label(&bytes("+")), None);
    assert_eq!(parse_label(&bytes("-1")), None);
    assert_eq!(parse_label(&bytes("++1")), None);
    assert_eq!(parse_label(&bytes(" 7")), None);
    assert_eq!(parse_label(&bytes("7 ")), None);
    assert_eq!(parse_label(&bytes("7.0")), None);
    assert_eq!(parse_label(&bytes("1_0")), None);
    assert_eq!(parse_label(&bytes("seven")), None);
    assert_eq!(parse_label(&bytes("١")), None);
}

#[test]
fn parse_label_stops_at_the_machine_word() {
    let greatest = usize::MAX.to_string();
    assert_eq!(parse_label(&bytes(&greatest)), Some(usize::MAX));
    let mut beyond = greatest.clone();
    beyond.push('0');
    assert_eq!(parse_label(&bytes(&beyond)), None);
    assert_eq!(parse_label(&bytes("99999999999999999999999999999999")), None);
    assert_eq!(parse_label(&bytes("99999999999999999999999999999999x")), None);
}

#[test]
fn parse_label_agrees_with_the_standard_parser() {
    let samples = [
        "", "+", "-", "0", "+0", "-0", "1", "9", "12", "+12", "012", "4294967295", "4294967296",
        "18446744073709551615", "18446744073709551616", "18446744073709551620", "1a", "a1", "1 ", " 1",
        "1,2", "١٢", "+-1", "1+", "00000000000000000000000000001", "340282366920938463463374607431768211456",
    ];
    for sample in samples {
        assert_eq!(parse_label(&bytes(sample)), sample.parse::<usize>().ok(), "{:?}", sample);
    }
}

#[test]
fn label_row_splits_digit_and_pixels() {
    let row = label_row(fields(&["3", "0", "128", "255"]), 10).unwrap();
    assert_eq!(row.0, TargetVector { len: 10, hot: 3 });
    assert_eq!(row.1, fields(&["0", "128", "255"]));
    let bare = label_row(fields(&["9"]), 10).unwrap();
    assert_eq!(bare.0.hot, 9);
    assert!(bare.1.is_empty());
}

#[test]
fn label_row_names_each_fault() {
    assert_eq!(label_row(Vec::new(), 10), Err(LabelError::Missing));
    assert_eq!(label_row(fields(&["x", "0"]), 10), Err(LabelError::Invalid));
    assert_eq!(label_row(fields(&["", "0"]), 10), Err(LabelError::Invalid));
    assert_eq!(label_row(fields(&["10", "0"]), 10), Err(LabelError::OutOfRange));
    assert!(label_row(fields(&["10", "0"]), 11).is_ok());
    assert_eq!(label_row(fields(&["0"]), 0), Err(LabelError::OutOfRange));
}

#[test]
fn label_records_passes_over_broken_records() {
    let rows = vec![Some(fields(&["1", "10"])), None, Some(fields(&["2", "20"])), None];
    let dataset = label_records(rows, 10).unwrap();
    assert_eq!(dataset.targets, vec![TargetVector { len: 10, hot: 1 }, TargetVector { len: 10, hot: 2 }]);
    assert_eq!(dataset.pixel_fields, vec![fields(&["10"]), fields(&["20"])]);
}

#[test]
fn label_records_fails_at_the_first_faulty_record() {
    let rows = vec![
        Some(fields(&["1", "10"])),
        None,
        Some(fields(&["12", "20"])),
        Some(fields(&["x", "30"])),
    ];
    match label_records(rows, 10) {
        Err(error) => assert_eq!(error, DatasetError { row: 2, kind: LabelError::OutOfRange }),
        Ok(_) => panic!("a digit beyond the classes was taken"),
    }
    let empty = label_records(Vec::new(), 10).unwrap();
    assert!(empty.targets.is_empty() && empty.pixel_fields.is_empty());
}

#[test]
fn load_mnist_reads_a_table_behind_its_header() {
    let table = bytes("digit,a,b,c\n5,0,128,255\n0,1,2,3\n");
    let dataset = load_mnist(&table).unwrap();
    assert_eq!(dataset.targets, vec![TargetVector { len: 10, hot: 5 }, TargetVector { len: 10, hot: 0 }]);
    assert_eq!(dataset.pixel_fields, vec![fields(&["0", "128", "255"]), fields(&["1", "2", "3"])]);
    assert_eq!(dataset.targets[0].to_vec(), vec![0, 0, 0, 0, 0, 1, 0, 0, 0, 0]);
}

#[test]
fn load_mnist_treats_the_first_line_as_header_whatever_it_holds() {
    let table = bytes("7,1,1\n3,2,2\n");
    let dataset = load_mnist(&table).unwrap();
    assert_eq!(dataset.targets, vec![TargetVector { len: 10, hot: 3 }]);
    assert!(load_mnist(&Vec::new()).unwrap().targets.is_empty());
    assert!(load_mnist(&bytes("digit,a\n")).unwrap().targets.is_empty());
}

#[test]
fn load_mnist_passes_over_records_of_another_width() {
    let table = bytes("digit,a,b\n1,0,0\n2,0\n3,1,1\n4,1,1,1\n");
    let dataset = load_mnist(&table).unwrap();
    let digits: Vec<usize> = dataset.targets.iter().map(|target| target.hot).collect();
    assert_eq!(digits, vec![1, 3]);
    assert_eq!(dataset.pixel_fields.len(), 2);
}

#[test]
fn load_mnist_passes_over_records_that_are_no_text() {
    let mut table = bytes("digit,a\n1,0\n2,");
    table.push(0xff);
    table.extend_from_slice(b"\n3,1\n");
    let dataset = load_mnist(&table).unwrap();
    let digits: Vec<usize> = dataset.targets.iter().map(|target| target.hot).collect();
    assert_eq!(digits, vec![1, 3]);
}

#[test]
fn load_mnist_reads_quoted_fields() {
    let table = bytes("digit,a\n\"4\",\"1,5\"\n");
    let dataset = load_mnist(&table).unwrap();
    assert_eq!(dataset.targets[0].hot, 4);
    assert_eq!(dataset.pixel_fields, vec![fields(&["1,5"])]);
}

#[test]
fn load_mnist_fails_on_a_digit_outside_the_classes() {
    let table = bytes("digit,a\n1,0\n10,0\n");
    match load_mnist(&table) {
        Err(error) => assert_eq!(error, DatasetError { row: 1, kind: LabelError::OutOfRange }),
        Ok(_) => panic!("digit 10 was taken among ten classes"),
    }
    match load_mnist(&bytes("digit,a\nfive,0\n")) {
        Err(error) => assert_eq!(error, DatasetError { row: 0, kind: LabelError::Invalid }),
        Ok(_) => panic!("a word was taken for a digit"),
    }
}

#[test]
fn create_fakes_gives_sentinel_targets() {
    let fakes = create_fakes(3);
    assert_eq!(fakes, vec![TargetVector { len: 11, hot: 10 }; 3]);
    assert_eq!(fakes[0].to_vec(), vec![0, 0, 0, 0, 0, 0, 0, 0, 0, 0, 1]);
    assert!(create_fakes(0).is_empty());
}

#[test]
fn mnist_with_fakes_puts_the_fakes_last() {
    let table = bytes("digit,a,b\n5,0,128\n10,1,2\n");
    let dataset = mnist_with_fakes(&table, 2).unwrap();
    assert_eq!(
        dataset.targets,
        vec![
            TargetVector { len: 11, hot: 5 },
            TargetVector { len: 11, hot: 10 },
            TargetVector { len: 11, hot: 10 },
            TargetVector { len: 11, hot: 10 },
        ]
    );
    assert_eq!(dataset.pixel_fields, vec![fields(&["0", "128"]), fields(&["1", "2"])]);
    match mnist_with_fakes(&bytes("digit,a\n11,0\n"), 2) {
        Err(error) => assert_eq!(error, DatasetError { row: 0, kind: LabelError::OutOfRange }),
        Ok(_) => panic!("digit 11 was taken among eleven slots"),
    }
}

#[test]
fn data_types_differ_in_slots_and_fakes() {
    assert_eq!(DataType::Mnist.label_count(), 10);
    assert_eq!(DataType::MnistFakes.label_count(), 11);
    assert_eq!(DataType::Mnist.fake_count(), 0);
    assert_eq!(DataType::MnistFakes.fake_count(), 60000);
}

#[test]
fn training_plans_of_the_two_kinds_of_data() {
    let rate = Ratio { numerator: 2, denominator: 1000 };
    assert_eq!(
        DataType::Mnist.training_plan(),
        TrainingPlan { input_size: 784, output_size: 10, epochs: 3, learning_rate: rate, fake_count: 0 }
    );
    assert_eq!(
        DataType::MnistFakes.training_plan(),
        TrainingPlan { input_size: 784, output_size: 11, epochs: 3, learning_rate: rate, fake_count: 60000 }
    );
}

#[test]
fn load_follows_the_kind_of_data() {
    let table = bytes("digit,a,b\n5,0,128\n9,1,2\n");
    let plain = load(DataType::Mnist, &table).unwrap();
    assert_eq!(plain.targets, vec![TargetVector { len: 10, hot: 5 }, TargetVector { len: 10, hot: 9 }]);
    assert_eq!(plain.pixel_fields.len(), 2);
    let mixed = load(DataType::MnistFakes, &table).unwrap();
    assert_eq!(mixed.targets.len(), 60002);
    assert_eq!(mixed.targets[0], TargetVector { len: 11, hot: 5 });
    assert_eq!(mixed.targets[1], TargetVector { len: 11, hot: 9 });
    assert!(mixed.targets[2..].iter().all(|target| *target == TargetVector { len: 11, hot: 10 }));
    assert_eq!(mixed.pixel_fields, plain.pixel_fields);
    let ten = bytes("digit,a\n10,0\n");
    assert!(load(DataType::Mnist, &ten).is_err());
    assert!(load(DataType::MnistFakes, &ten).is_ok());
}
