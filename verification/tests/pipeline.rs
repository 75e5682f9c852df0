use process_stats::input::measurement_fields;
use process_stats::pipeline::Pipeline;
use process_stats::population::StatsError;

fn bits(values: &[f64]) -> Vec<u64> {
    values.iter().map(|v| v.to_bits()).collect()
}

fn one_to(n: u32) -> Vec<u64> {
    (1..=n).map(|i| (i as f64).to_bits()).collect()
}

fn mean(series: &[u64]) -> f64 {
    series.iter().map(|v| f64::from_bits(*v)).sum::<f64>() / series.len() as f64
}

fn variance(series: &[u64]) -> f64 {
    let average = mean(series);
    series.iter().map(|v| (f64::from_bits(*v) - average).powf(2.0)).sum::<f64>()
        / series.len() as f64
}

#[test]
fn pipelines_come_in_the_order_of_the_report() {
    assert_eq!(
        Pipeline::all(),
        vec![
            Pipeline::General,
            Pipeline::EachSecond,
            Pipeline::EachFifth,
            Pipeline::EachFifthFromSecond
        ]
    );
}

#[test]
fn pipelines_select_their_samples() {
    let measures = one_to(12);
    assert_eq!(Pipeline::General.select(&measures), measures);
    assert_eq!(Pipeline::EachSecond.select(&measures), bits(&[2.0, 4.0, 6.0, 8.0, 10.0, 12.0]));
    assert_eq!(Pipeline::EachFifth.select(&measures), bits(&[5.0, 10.0]));
    assert_eq!(Pipeline::EachFifthFromSecond.select(&measures), bits(&[6.0, 11.0]));
}

#[test]
fn pipelines_name_their_charts() {
    assert_eq!(Pipeline::General.chart_file_name(), "general_frequency_range.png");
    assert_eq!(Pipeline::EachSecond.chart_file_name(), "each_second_frequency_range.png");
    assert_eq!(Pipeline::EachFifth.chart_file_name(), "each_fifth_frequency_range.png");
    assert_eq!(
        Pipeline::EachFifthFromSecond.chart_file_name(),
        "each_fifth_from_second_frequency_range.png"
    );
}

#[test]
fn pipelines_fail_one_by_one() {
    let measures = one_to(6);
    assert!(Pipeline::General.analyse(&measures).is_ok());
    assert!(Pipeline::EachSecond.analyse(&measures).is_ok());
    assert_eq!(
        Pipeline::EachFifth.analyse(&measures).err(),
        Some(StatsError::InsufficientSamples)
    );
    assert_eq!(
        Pipeline::EachFifthFromSecond.analyse(&measures).err(),
        Some(StatsError::InsufficientSamples)
    );
    let few = one_to(4);
    assert!(Pipeline::General.analyse(&few).is_ok());
    assert_eq!(Pipeline::EachFifth.analyse(&few).err(), Some(StatsError::InvalidInput));
}

#[test]
fn three_rows_from_file_to_moments() {
    let data = b"time,power\na,10.0\nb,20.0\nc,30.0\n";
    let fields = measurement_fields(data).unwrap();
    let measures: Vec<u64> =
        fields.iter().map(|field| field.parse::<f64>().unwrap().to_bits()).collect();
    assert_eq!(measures, bits(&[10.0, 20.0, 30.0]));
    let population = Pipeline::General.analyse(&measures).unwrap();
    let series = population.variation_series();
    let n = population.len() as f64;
    let corrected = variance(series) * n / population.degrees_of_freedom() as f64;
    assert_eq!(mean(series), 20.0);
    assert!((variance(series) - 66.66667).abs() < 1e-5);
    assert!((corrected - 100.0).abs() < 1e-9);
    assert_eq!(
        Pipeline::EachSecond.analyse(&measures).err(),
        Some(StatsError::InsufficientSamples)
    );
    assert_eq!(Pipeline::EachFifth.analyse(&measures).err(), Some(StatsError::InvalidInput));
}
