//! The frequency polygon of a population: what a chart of it spans and the
//! points it connects.

use vstd::prelude::*;
use crate::frequency::highest_count;
use crate::frequency::is_polygon_of;
use crate::frequency::FrequencyTable;
use crate::population::StatisticalPopulation;
use crate::series::lemma_variation_series_is_sorted_permutation;

verus! {

/// The width of the canvas that a chart is drawn on, in pixels.
pub const CANVAS_WIDTH: u32 = 1280;

/// The height of the canvas that a chart is drawn on, in pixels.
pub const CANVAS_HEIGHT: u32 = 720;

/// A frequency polygon: the line through the points (measurement, number of
/// occurrences), drawn over the measurements from `x_min` to `x_max` and over
/// the counts from zero to `y_max`.
pub struct FrequencyPolygon {
    /// The least measurement.
    pub x_min: u64,
    /// The greatest measurement.
    pub x_max: u64,
    /// One more than the largest number of occurrences.
    pub y_max: u64,
    /// One point for each distinct measurement, in ascending order.
    pub points: Vec<(u64, u64)>,
}

impl FrequencyPolygon {
    /// The polygon is that of the variation series `series`: it spans from
    /// the first to the last measurement of the series, its points are the
    /// distinct measurements with their counts, and it leaves room for one
    /// more than the largest count.
    pub open spec fn spans(&self, series: Seq<u64>) -> bool {
        &&& series.len() > 0
        &&& self.x_min == series.first()
        &&& self.x_max == series.last()
        &&& is_polygon_of(self.points@, series.to_multiset())
        &&& forall|i: int| 0 <= i < self.points@.len() ==> (#[trigger] self.points@[i]).1 < self.y_max
        &&& exists|i: int|
            0 <= i < self.points@.len() && (#[trigger] self.points@[i]).1 + 1 == self.y_max
    }
}

impl StatisticalPopulation {
    /// The frequency polygon of the population.
    pub fn frequency_polygon(&self) -> (polygon: FrequencyPolygon)
        requires
            self@.population.len() < u64::MAX,
        ensures
            polygon.spans(self@.series),
    {
        let series = self.variation_series();
        proof {
            lemma_variation_series_is_sorted_permutation(self@.population);
        }
        let x_min = series[0];
        let x_max = series[series.len() - 1];
        let table = FrequencyTable::aggregate(series);
        let points = table.points();
        let highest = highest_count(&points);
        proof {
            broadcast use vstd::seq_lib::group_to_multiset_ensures;

            let bag = series@.to_multiset();
            assert(bag.count(series@[0]) > 0);
            assert(points@.len() > 0);
            let top = choose|i: int| 0 <= i < points@.len() && (#[trigger] points@[i]).1 == highest;
            vstd::multiset::axiom_count_le_len(bag, points@[top].0);
        }
        FrequencyPolygon { x_min, x_max, y_max: highest + 1, points }
    }
}

} // verus!
