use process_stats::frequency::{highest_count, FrequencyTable};
use process_stats::population::StatisticalPopulation;

fn bits(values: &[f64]) -> Vec<u64> {
    values.iter().map(|v| v.to_bits()).collect()
}

fn as_floats(points: &[(u64, u64)]) -> Vec<(f64, u64)> {
    points.iter().map(|(value, count)| (f64::from_bits(*value), *count)).collect()
}

#[test]
fn aggregate_counts_repetitions() {
    let table = FrequencyTable::aggregate(&bits(&[1.0, 1.0, 2.0, 3.0, 3.0, 3.0]));
    assert_eq!(table.count(1.0f64.to_bits()), 2);
    assert_eq!(table.count(2.0f64.to_bits()), 1);
    assert_eq!(table.count(3.0f64.to_bits()), 3);
    assert_eq!(table.count(4.0f64.to_bits()), 0);
    assert_eq!(table.distinct(), 3);
    let points = table.points();
    assert_eq!(as_floats(&points), vec![(1.0, 2), (2.0, 1), (3.0, 3)]);
    assert_eq!(points.iter().map(|point| point.1).sum::<u64>(), 6);
}

#[test]
fn aggregate_of_distinct_values_counts_one_each() {
    let values = bits(&[0.5, 1.5, 2.5, 3.5]);
    let table = FrequencyTable::aggregate(&values);
    assert_eq!(table.distinct(), 4);
    for point in table.points() {
        assert_eq!(point.1, 1);
    }
}

#[test]
fn aggregate_of_nothing_is_empty() {
    let table = FrequencyTable::aggregate(&Vec::new());
    assert_eq!(table.distinct(), 0);
    assert_eq!(table.points(), Vec::<(u64, u64)>::new());
    assert_eq!(table.count(0), 0);
}

#[test]
fn aggregate_tells_values_apart_by_their_bits() {
    let close = f64::from_bits(1.0f64.to_bits() + 1);
    let table = FrequencyTable::aggregate(&bits(&[1.0, close, 1.0, 0.0, -0.0]));
    assert_eq!(table.count(1.0f64.to_bits()), 2);
    assert_eq!(table.count(close.to_bits()), 1);
    assert_eq!(table.count(0.0f64.to_bits()), 1);
    assert_eq!(table.count((-0.0f64).to_bits()), 1);
    assert_eq!(table.distinct(), 4);
    assert_eq!(
        table.points(),
        vec![
            ((-0.0f64).to_bits(), 1),
            (0.0f64.to_bits(), 1),
            (1.0f64.to_bits(), 2),
            (close.to_bits(), 1),
        ]
    );
}

#[test]
fn points_come_in_ascending_order_of_values() {
    let mut values: Vec<f64> = Vec::new();
    for i in 0..200 {
        let value = ((i * 37) % 101) as f64 - 50.0;
        values.push(value);
        if i % 3 == 0 {
            values.push(value);
        }
    }
    let table = FrequencyTable::aggregate(&bits(&values));
    let points = as_floats(&table.points());
    assert_eq!(points.len(), table.distinct());
    for pair in points.windows(2) {
        assert!(pair[0].0 < pair[1].0);
    }
    for (value, count) in points.iter() {
        let expected = values.iter().filter(|v| **v == *value).count() as u64;
        assert_eq!(*count, expected);
    }
    assert_eq!(points.iter().map(|point| point.1).sum::<u64>(), values.len() as u64);
}

#[test]
fn highest_count_is_the_largest() {
    assert_eq!(highest_count(&vec![(1, 2), (2, 1), (3, 3)]), 3);
    assert_eq!(highest_count(&vec![(1, 7)]), 7);
    assert_eq!(highest_count(&vec![(1, 4), (2, 4)]), 4);
    assert_eq!(highest_count(&Vec::new()), 0);
}

#[test]
fn polygon_spans_the_series_and_leaves_room_above() {
    let population = StatisticalPopulation::new(&bits(&[3.0, 1.0, 3.0, 2.0, 1.0, 3.0])).unwrap();
    let polygon = population.frequency_polygon();
    assert_eq!(f64::from_bits(polygon.x_min), 1.0);
    assert_eq!(f64::from_bits(polygon.x_max), 3.0);
    assert_eq!(polygon.y_max, 4);
    assert_eq!(as_floats(&polygon.points), vec![(1.0, 2), (2.0, 1), (3.0, 3)]);
}

#[test]
fn polygon_of_a_single_distinct_value_is_one_point() {
    let population = StatisticalPopulation::new(&bits(&[2.5, 2.5, 2.5])).unwrap();
    let polygon = population.frequency_polygon();
    assert_eq!(polygon.x_min, 2.5f64.to_bits());
    assert_eq!(polygon.x_max, 2.5f64.to_bits());
    assert_eq!(polygon.y_max, 4);
    assert_eq!(polygon.points, vec![(2.5f64.to_bits(), 3)]);
}

#[test]
fn polygon_of_negative_values() {
    let population = StatisticalPopulation::new(&bits(&[-1.0, -3.0, -2.0, -3.0])).unwrap();
    let polygon = population.frequency_polygon();
    assert_eq!(f64::from_bits(polygon.x_min), -3.0);
    assert_eq!(f64::from_bits(polygon.x_max), -1.0);
    assert_eq!(polygon.y_max, 3);
    assert_eq!(as_floats(&polygon.points), vec![(-3.0, 2), (-2.0, 1), (-1.0, 1)]);
}
