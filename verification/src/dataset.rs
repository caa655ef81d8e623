//! Labelled training examples from a table of digit images.
//!
//! The table is comma-separated text with one header line. Each later line
//! is one example: its first field is the digit, a decimal number, and the
//! fields behind it are the pixels. The pixel fields stay text here: turning
//! them into reals is the caller's.

use vstd::prelude::*;
use crate::ratio::Ratio;
use crate::target::TargetVector;

verus! {

/// Number of digit classes in the table.
pub const DIGIT_CLASSES: usize = 10;

/// Number of generated examples that are mixed into a table with fakes.
pub const FAKE_EXAMPLES: usize = 60000;

/// What the classifier is trained on.
#[derive(Clone, Copy, Debug, PartialEq, Eq, Structural)]
pub enum DataType {
    /// The digit images alone.
    Mnist,
    /// The digit images and, behind them, generated images under the
    /// sentinel class.
    MnistFakes,
}

impl DataType {
    /// Number of slots in a target vector of this data.
    pub open spec fn spec_label_count(&self) -> usize {
        match self {
            DataType::Mnist => DIGIT_CLASSES,
            DataType::MnistFakes => (DIGIT_CLASSES + 1) as usize,
        }
    }

    /// Number of slots in a target vector of this data: one per digit, and
    /// one more where generated images are part of it.
    pub fn label_count(&self) -> (r: usize)
        ensures
            r == self.spec_label_count(),
    {
        match self {
            DataType::Mnist => DIGIT_CLASSES,
            DataType::MnistFakes => DIGIT_CLASSES + 1,
        }
    }

    /// Number of generated examples that belong to this data.
    pub fn fake_count(&self) -> (r: usize)
        ensures
            r == (match self {
                DataType::Mnist => 0,
                DataType::MnistFakes => FAKE_EXAMPLES,
            }),
    {
        match self {
            DataType::Mnist => 0,
            DataType::MnistFakes => FAKE_EXAMPLES,
        }
    }
}

/// How a classifier is trained from scratch on one kind of data.
#[derive(Clone, Copy, Debug, PartialEq, Eq, Structural)]
pub struct TrainingPlan {
    /// Number of inputs of the classifier: the pixels of an image.
    pub input_size: usize,
    /// Number of outputs of the classifier: the slots of a target vector.
    pub output_size: usize,
    /// Number of passes over the examples.
    pub epochs: usize,
    /// Learning rate of every pass.
    pub learning_rate: Ratio,
    /// Number of generated examples behind those of the table.
    pub fake_count: usize,
}

impl DataType {
    /// The training on this data: a classifier from 784 pixels to the
    /// slots of the data, three passes at a rate of 0.002.
    pub fn training_plan(&self) -> (r: TrainingPlan)
        ensures
            r == (TrainingPlan {
                input_size: 784,
                output_size: self.spec_label_count(),
                epochs: 3,
                learning_rate: Ratio { numerator: 2, denominator: 1000 },
                fake_count: match self {
                    DataType::Mnist => 0,
                    DataType::MnistFakes => FAKE_EXAMPLES,
                },
            }),
    {
        TrainingPlan {
            input_size: 784,
            output_size: self.label_count(),
            epochs: 3,
            learning_rate: Ratio { numerator: 2, denominator: 1000 },
            fake_count: self.fake_count(),
        }
    }
}

/// Why a line of the table gives no example.
#[derive(Clone, Copy, Debug, PartialEq, Eq, Structural)]
pub enum LabelError {
    /// The line has no field at all.
    Missing,
    /// The first field is no decimal number that fits a machine word.
    Invalid,
    /// The digit is no slot of the target vector.
    OutOfRange,
}

/// The first line of the table that gives no example, and why.
#[derive(Clone, Copy, Debug, PartialEq, Eq, Structural)]
pub struct DatasetError {
    /// Position of the line among the records read, the header not counted.
    pub row: usize,
    /// What is wrong with it.
    pub kind: LabelError,
}

/// The examples of a table: for each its target vector and the text of its
/// pixel fields. Generated examples have a target only and stand last.
pub struct Dataset {
    /// One target per example.
    pub targets: Vec<TargetVector>,
    /// The pixel fields of each example that the table holds, in its order.
    pub pixel_fields: Vec<Vec<Vec<u8>>>,
}

/// A dataset as sequences.
pub struct DatasetView {
    pub targets: Seq<TargetVector>,
    pub pixel_fields: Seq<Seq<Seq<u8>>>,
}

/// The fields of one record as byte sequences.
pub open spec fn fields_view(fields: Vec<Vec<u8>>) -> Seq<Seq<u8>> {
    fields@.map_values(|field: Vec<u8>| field@)
}

/// One record as read: its fields, or nothing where the record is broken.
pub open spec fn row_view(row: Option<Vec<Vec<u8>>>) -> Option<Seq<Seq<u8>>> {
    match row {
        Some(fields) => Some(fields_view(fields)),
        None => None,
    }
}

/// The records of a table as read.
pub open spec fn rows_view(rows: Vec<Option<Vec<Vec<u8>>>>) -> Seq<Option<Seq<Seq<u8>>>> {
    rows@.map_values(|row: Option<Vec<Vec<u8>>>| row_view(row))
}

impl View for Dataset {
    type V = DatasetView;

    open spec fn view(&self) -> DatasetView {
        DatasetView {
            targets: self.targets@,
            pixel_fields: self.pixel_fields@.map_values(|fields: Vec<Vec<u8>>| fields_view(fields)),
        }
    }
}

/// `b` is an ASCII decimal digit.
pub open spec fn is_digit(b: u8) -> bool {
    48 <= b <= 57
}

/// The number that the decimal digits `s` write, read from the left.
pub open spec fn digits_value(s: Seq<u8>) -> nat
    decreases s.len(),
{
    if s.len() == 0 {
        0
    } else {
        digits_value(s.drop_last()) * 10 + (s.last() - 48) as nat
    }
}

/// The field without a leading plus sign.
pub open spec fn unsigned_part(field: Seq<u8>) -> Seq<u8> {
    if field.len() > 0 && field[0] == 43 {
        field.skip(1)
    } else {
        field
    }
}

/// The digit that a field names: an optional plus sign, then one or more
/// decimal digits and nothing else, with a value that fits a machine word.
pub open spec fn label_of(field: Seq<u8>) -> Option<usize> {
    let digits = unsigned_part(field);
    if digits.len() > 0 && (forall|i: int| 0 <= i < digits.len() ==> is_digit(#[trigger] digits[i]))
        && digits_value(digits) <= usize::MAX {
        Some(digits_value(digits) as usize)
    } else {
        None
    }
}

/// The example that one record gives for a target vector of `labels` slots:
/// the target of its digit, and the fields behind the first.
pub open spec fn labelled_row(fields: Seq<Seq<u8>>, labels: usize) -> Result<
    (TargetVector, Seq<Seq<u8>>),
    LabelError,
> {
    if fields.len() == 0 {
        Err(LabelError::Missing)
    } else {
        match label_of(fields[0]) {
            None => Err(LabelError::Invalid),
            Some(label) => if label < labels {
                Ok((TargetVector { len: labels, hot: label }, fields.drop_first()))
            } else {
                Err(LabelError::OutOfRange)
            },
        }
    }
}

/// The dataset that the records give. Broken records are passed over. The
/// first record that gives no example fails the whole.
pub open spec fn labelled(rows: Seq<Option<Seq<Seq<u8>>>>, labels: usize) -> Result<
    DatasetView,
    DatasetError,
>
    decreases rows.len(),
{
    if rows.len() == 0 {
        Ok(DatasetView { targets: Seq::empty(), pixel_fields: Seq::empty() })
    } else {
        match labelled(rows.drop_last(), labels) {
            Err(e) => Err(e),
            Ok(done) => match rows.last() {
                None => Ok(done),
                Some(fields) => match labelled_row(fields, labels) {
                    Ok((target, pixels)) => Ok(
                        DatasetView {
                            targets: done.targets.push(target),
                            pixel_fields: done.pixel_fields.push(pixels),
                        },
                    ),
                    Err(kind) => Err(DatasetError { row: (rows.len() - 1) as usize, kind }),
                },
            },
        }
    }
}

/// `count` targets of the sentinel class.
pub open spec fn fake_targets(count: nat) -> Seq<TargetVector> {
    Seq::new(count, |i: int| TargetVector { len: (DIGIT_CLASSES + 1) as usize, hot: DIGIT_CLASSES })
}

/// The records that the table reader finds in `data`, the header line left
/// out, each with its fields or with nothing where the reader reports the
/// record as broken.
pub uninterp spec fn csv_records(data: Seq<u8>) -> Seq<Option<Seq<Seq<u8>>>>;

/// Reads the records of a table with `csv::Reader::from_reader` and
/// `Reader::records`, under the reader's defaults: the first line is a
/// header and is not handed out, and a record is broken where it has
/// another number of fields than the first line or where its text is no
/// UTF-8. Trusted: the result is `csv_records` of the bytes, one entry per
/// item of the iterator, a record's fields copied byte for byte and an
/// `Err` item turned into `None`.
#[verifier::external_body]
fn read_records(data: &Vec<u8>) -> (rows: Vec<Option<Vec<Vec<u8>>>>)
    ensures
        rows_view(rows) == csv_records(data@),
{
    let mut reader = csv::Reader::from_reader(data.as_slice());
    reader
        .records()
        .map(|item| item.ok().map(|record| record.iter().map(|field| field.as_bytes().to_vec()).collect()))
        .collect()
}

/// A longer run of digits writes no smaller number than its beginning.
proof fn lemma_digits_value_grows(s: Seq<u8>, n: int)
    requires
        0 <= n <= s.len(),
    ensures
        digits_value(s.take(n)) <= digits_value(s),
    decreases s.len() - n,
{
    if n == s.len() {
        assert(s.take(n) =~= s);
    } else {
        lemma_digits_value_grows(s.drop_last(), n);
        assert(s.drop_last().take(n) =~= s.take(n));
    }
}

/// The digit that a field names, if it names one.
pub fn parse_label(field: &Vec<u8>) -> (r: Option<usize>)
    ensures
        r == label_of(field@),
{
    let n: usize = field.len();
    let start: usize = if n > 0 && field[0] == 43 {
        1
    } else {
        0
    };
    let ghost digits = unsigned_part(field@);
    if start == n {
        return None;
    }
    let mut value: usize = 0;
    let mut i: usize = start;
    while i < n
        invariant
            start <= i <= n,
            n == field@.len(),
            digits == field@.skip(start as int),
            digits == unsigned_part(field@),
            forall|j: int| 0 <= j < i - start ==> is_digit(#[trigger] digits[j]),
            value == digits_value(digits.take(i - start)),
        decreases n - i,
    {
        let b: u8 = field[i];
        if b < 48 || b > 57 {
            assert(!is_digit(digits[i - start]));
            return None;
        }
        let d: usize = (b - 48) as usize;
        proof {
            let longer = digits.take(i - start + 1);
            assert(longer.drop_last() =~= digits.take(i - start));
            lemma_digits_value_grows(digits, i - start + 1);
        }
        if value > (usize::MAX - d) / 10 {
            return None;
        }
        value = value * 10 + d;
        i += 1;
    }
    assert(digits.take(i - start) =~= digits);
    Some(value)
}

/// The example that one record gives, or why it gives none.
pub fn label_row(fields: Vec<Vec<u8>>, labels: usize) -> (r: Result<(TargetVector, Vec<Vec<u8>>), LabelError>)
    ensures
        match r {
            Ok((target, pixels)) => labelled_row(fields_view(fields), labels) == Ok::<
                (TargetVector, Seq<Seq<u8>>),
                LabelError,
            >((target, fields_view(pixels))),
            Err(kind) => labelled_row(fields_view(fields), labels) == Err::<
                (TargetVector, Seq<Seq<u8>>),
                LabelError,
            >(kind),
        },
{
    if fields.len() == 0 {
        return Err(LabelError::Missing);
    }
    let mut rest = fields;
    let first = rest.remove(0);
    assert(fields_view(rest) =~= fields_view(fields).drop_first());
    match parse_label(&first) {
        None => Err(LabelError::Invalid),
        Some(label) => {
            if label < labels {
                Ok((TargetVector { len: labels, hot: label }, rest))
            } else {
                Err(LabelError::OutOfRange)
            }
        },
    }
}

/// The dataset that records give for a target vector of `labels` slots.
pub fn label_records(rows: Vec<Option<Vec<Vec<u8>>>>, labels: usize) -> (r: Result<Dataset, DatasetError>)
    ensures
        match r {
            Ok(dataset) => labelled(rows_view(rows), labels) == Ok::<DatasetView, DatasetError>(dataset@),
            Err(e) => labelled(rows_view(rows), labels) == Err::<DatasetView, DatasetError>(e),
        },
{
    let ghost all = rows_view(rows);
    let mut dataset = Dataset { targets: Vec::new(), pixel_fields: Vec::new() };
    let mut at: usize = 0;
    assert(dataset@.pixel_fields =~= Seq::<Seq<Seq<u8>>>::empty());
    for row in it: rows
        invariant
            at == it.index(),
            it.seq() == rows@,
            all == rows_view(rows),
            labelled(all.take(at as int), labels) == Ok::<DatasetView, DatasetError>(dataset@),
    {
        assert(at < rows.len());
        proof {
            let upto = all.take(at + 1);
            assert(upto.drop_last() =~= all.take(at as int));
        }
        match row {
            None => {},
            Some(fields) => {
                match label_row(fields, labels) {
                    Ok((target, pixels)) => {
                        let ghost before = dataset@;
                        dataset.targets.push(target);
                        dataset.pixel_fields.push(pixels);
                        assert(dataset@.pixel_fields =~= before.pixel_fields.push(fields_view(pixels)));
                    },
                    Err(kind) => {
                        proof {
                            lemma_labelled_error_stays(all, at + 1, labels);
                        }
                        return Err(DatasetError { row: at, kind });
                    },
                }
            },
        }
        at += 1;
    }
    assert(all.take(at as int) =~= all);
    Ok(dataset)
}

/// Once a beginning of the records has failed, the whole fails the same way.
proof fn lemma_labelled_error_stays(rows: Seq<Option<Seq<Seq<u8>>>>, n: int, labels: usize)
    requires
        0 <= n <= rows.len(),
        labelled(rows.take(n), labels) is Err,
    ensures
        labelled(rows, labels) == labelled(rows.take(n), labels),
    decreases rows.len() - n,
{
    if n == rows.len() {
        assert(rows.take(n) =~= rows);
    } else {
        assert(rows.drop_last().take(n) =~= rows.take(n));
        lemma_labelled_error_stays(rows.drop_last(), n, labels);
    }
}

/// The examples of the digit table in `data`, each under one of ten classes.
pub fn load_mnist(data: &Vec<u8>) -> (r: Result<Dataset, DatasetError>)
    ensures
        match r {
            Ok(dataset) => labelled(csv_records(data@), DIGIT_CLASSES) == Ok::<DatasetView, DatasetError>(
                dataset@,
            ),
            Err(e) => labelled(csv_records(data@), DIGIT_CLASSES) == Err::<DatasetView, DatasetError>(e),
        },
{
    label_records(read_records(data), DIGIT_CLASSES)
}

/// The targets of `count` generated examples: the sentinel class each time.
pub fn create_fakes(count: usize) -> (r: Vec<TargetVector>)
    ensures
        r@ == fake_targets(count as nat),
{
    let mut out: Vec<TargetVector> = Vec::new();
    let mut i: usize = 0;
    while i < count
        invariant
            i <= count,
            out@ == fake_targets(i as nat),
        decreases count - i,
    {
        out.push(TargetVector { len: DIGIT_CLASSES + 1, hot: DIGIT_CLASSES });
        i += 1;
    }
    out
}

/// The examples of the digit table in `data` under eleven slots, and behind
/// them the targets of `fake_count` generated examples.
pub fn mnist_with_fakes(data: &Vec<u8>, fake_count: usize) -> (r: Result<Dataset, DatasetError>)
    ensures
        match r {
            Ok(dataset) => {
                &&& labelled(csv_records(data@), (DIGIT_CLASSES + 1) as usize) matches Ok(table)
                &&& dataset@.targets == table.targets + fake_targets(fake_count as nat)
                &&& dataset@.pixel_fields == table.pixel_fields
            },
            Err(e) => labelled(csv_records(data@), (DIGIT_CLASSES + 1) as usize) == Err::<
                DatasetView,
                DatasetError,
            >(e),
        },
{
    match label_records(read_records(data), DIGIT_CLASSES + 1) {
        Err(e) => Err(e),
        Ok(table) => {
            let mut dataset = table;
            let mut fakes = create_fakes(fake_count);
            dataset.targets.append(&mut fakes);
            Ok(dataset)
        },
    }
}

/// The examples of this kind of data from the digit table in `data`.
pub fn load(data_type: DataType, data: &Vec<u8>) -> (r: Result<Dataset, DatasetError>)
    ensures
        match r {
            Ok(dataset) => {
                &&& labelled(csv_records(data@), data_type.spec_label_count()) matches Ok(table)
                &&& dataset@.pixel_fields == table.pixel_fields
                &&& dataset@.targets == (match data_type {
                    DataType::Mnist => table.targets,
                    DataType::MnistFakes => table.targets + fake_targets(FAKE_EXAMPLES as nat),
                })
            },
            Err(e) => labelled(csv_records(data@), data_type.spec_label_count()) == Err::<
                DatasetView,
                DatasetError,
            >(e),
        },
{
    match data_type {
        DataType::Mnist => load_mnist(data),
        DataType::MnistFakes => mnist_with_fakes(data, FAKE_EXAMPLES),
    }
}

} // verus!
