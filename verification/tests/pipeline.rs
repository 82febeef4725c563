//! End-to-end scenarios: raw text through tokenization, numeric coercion
//! and aggregation.  The floating-point arithmetic (sum, average, the two
//! deviation measures) is performed here exactly as the presentation shell
//! does it, with the library supplying the verified parts: tokenization,
//! value collection, count, min/max and the NaN test that ends the sum.

use cstats::Dataset;
use cstats::Format;
use cstats::StatData;
use cstats::StatsError;
use cstats::bits_is_nan;
use cstats::tokenize;

fn aggregate(text: &str, fmt: Format) -> Result<StatData, StatsError> {
    let tokens = tokenize(text, fmt)?;
    let parsed: Vec<Option<u64>> = tokens
        .iter()
        .map(|t| t.parse::<f64>().ok().map(f64::to_bits))
        .collect();
    let data = Dataset::from_parsed(parsed)?;
    let n = data.len();
    let mut sum = 0.0f64;
    let mut i = 0usize;
    while !bits_is_nan(sum.to_bits()) && i < n {
        sum += f64::from_bits(data.get(i));
        i += 1;
    }
    let avg = if n != 0 { sum / n as f64 } else { f64::NAN };
    let mut squared_devs = 0.0f64;
    for j in 0..n {
        squared_devs += (f64::from_bits(data.get(j)) - avg).powi(2);
    }
    let sigma = (squared_devs / n as f64).sqrt();
    let standard_deviation = (squared_devs / (n - 1) as f64).sqrt();
    Ok(StatData::new(
        &data,
        sum.to_bits(),
        avg.to_bits(),
        sigma.to_bits(),
        standard_deviation.to_bits(),
    ))
}

fn dataset_of(values: &[f64]) -> Dataset {
    let parsed: Vec<Option<u64>> = values.iter().map(|v| Some(v.to_bits())).collect();
    Dataset::from_parsed(parsed).unwrap()
}

#[test]
fn test() {
    let values = vec![1.0f64, 2.0, 3.0, 4.0, 5.0];
    let data = dataset_of(&values);
    let sum: f64 = 15.0;
    let avg = sum / 5.0;
    let squared_devs: f64 = values.iter().map(|v| (v - avg).powi(2)).sum();
    let x = StatData::new(
        &data,
        sum.to_bits(),
        avg.to_bits(),
        (squared_devs / 5.0).sqrt().to_bits(),
        (squared_devs / 4.0).sqrt().to_bits(),
    );
    assert_eq!(x.count, 5);
    assert_eq!(f64::from_bits(x.min), 1.0);
    assert_eq!(f64::from_bits(x.max), 5.0);
    assert_eq!(f64::from_bits(x.sum), 15.0);
}

#[test]
fn full_report_scenario() {
    // "5.0 5.0 3.0 3.0 6.5" as txt: sum 22.5, count 5, avg 4.5, min 3.0,
    // max 6.5; squared deviations total 9.0, so the population measure is
    // sqrt(9/5) and the sample measure sqrt(9/4) = 1.5.
    let sd = aggregate("5.0 5.0 3.0 3.0 6.5", Format::PlainText).unwrap();
    assert_eq!(f64::from_bits(sd.sum), 22.5);
    assert_eq!(sd.count, 5);
    assert_eq!(f64::from_bits(sd.avg), 4.5);
    assert_eq!(f64::from_bits(sd.min), 3.0);
    assert_eq!(f64::from_bits(sd.max), 6.5);
    assert_eq!(f64::from_bits(sd.sigma), (9.0f64 / 5.0).sqrt());
    assert_eq!(f64::from_bits(sd.standard_deviation), 1.5);
    assert!((f64::from_bits(sd.sigma) - 1.3416).abs() < 5e-4);
    assert!((f64::from_bits(sd.standard_deviation) - 1.5).abs() < 5e-4);
    // avg is exactly sum / count, with the rounding of a single division
    assert_eq!(f64::from_bits(sd.avg), f64::from_bits(sd.sum) / sd.count as f64);
}

#[test]
fn empty_input_is_empty_dataset() {
    assert_eq!(aggregate("", Format::PlainText).unwrap_err(), StatsError::EmptyDataset);
    assert_eq!(aggregate("   \n\t ", Format::Csv).unwrap_err(), StatsError::EmptyDataset);
}

#[test]
fn no_numeric_tokens_is_empty_dataset() {
    assert_eq!(aggregate("foo bar baz", Format::PlainText).unwrap_err(), StatsError::EmptyDataset);
}

#[test]
fn tolerance_drops_non_numeric() {
    // "1 foo 2 bar 3" yields exactly [1.0, 2.0, 3.0].
    let tokens = tokenize("1 foo 2 bar 3", Format::PlainText).unwrap();
    let parsed: Vec<Option<u64>> = tokens
        .iter()
        .map(|t| t.parse::<f64>().ok().map(f64::to_bits))
        .collect();
    let data = Dataset::from_parsed(parsed).unwrap();
    assert_eq!(data.len(), 3);
    assert_eq!(f64::from_bits(data.get(0)), 1.0);
    assert_eq!(f64::from_bits(data.get(1)), 2.0);
    assert_eq!(f64::from_bits(data.get(2)), 3.0);
}

#[test]
fn count_matches_parsed_tokens() {
    let sd = aggregate("1 x 2 y 3 1e3 -4.5e-2 zz", Format::PlainText).unwrap();
    assert_eq!(sd.count, 5);
}

#[test]
fn dataset_preserves_token_order() {
    let data = dataset_of(&[3.0, 1.0, 2.0]);
    assert_eq!(f64::from_bits(data.get(0)), 3.0);
    assert_eq!(f64::from_bits(data.get(1)), 1.0);
    assert_eq!(f64::from_bits(data.get(2)), 2.0);
}

#[test]
fn nan_short_circuit_keeps_count_min_max() {
    // A literal NaN token passes numeric coercion, turns the running sum
    // NaN and halts the accumulation, but count, min and max still cover
    // every element.
    let sd = aggregate("1 NaN 5", Format::PlainText).unwrap();
    assert!(f64::from_bits(sd.sum).is_nan());
    assert!(bits_is_nan(sd.sum));
    assert_eq!(sd.count, 3);
    assert_eq!(f64::from_bits(sd.min), 1.0);
    assert_eq!(f64::from_bits(sd.max), 5.0);
}

#[test]
fn single_element_sample_deviation_is_nan() {
    // One element: the squared-deviation total is 0 and the sample
    // divisor is 0, so the sample standard deviation is 0/0 = NaN.
    let sd = aggregate("7.25", Format::PlainText).unwrap();
    assert_eq!(sd.count, 1);
    assert_eq!(f64::from_bits(sd.sum), 7.25);
    assert_eq!(f64::from_bits(sd.avg), 7.25);
    assert!(f64::from_bits(sd.standard_deviation).is_nan());
    assert!(bits_is_nan(sd.standard_deviation));
    assert_eq!(f64::from_bits(sd.sigma), 0.0);
}

#[test]
fn equal_elements_sigma_is_zero() {
    let sd = aggregate("4.5 4.5 4.5", Format::PlainText).unwrap();
    assert_eq!(f64::from_bits(sd.sigma), 0.0);
    assert_eq!(f64::from_bits(sd.standard_deviation), 0.0);
}

#[test]
fn sum_is_left_to_right_reduction() {
    // For finite data the sum is the plain left-to-right reduction, and
    // the average carries that sum's rounding through one division.
    let sd = aggregate("0.1 0.2 0.3 4", Format::PlainText).unwrap();
    assert_eq!(f64::from_bits(sd.sum), ((0.1f64 + 0.2) + 0.3) + 4.0);
    assert_eq!(f64::from_bits(sd.avg), f64::from_bits(sd.sum) / 4.0);
}
