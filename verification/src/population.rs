//! A statistical population: the measurements under analysis, in the order
//! they were taken and in ascending order.

use vstd::prelude::*;
use crate::measurement::all_finite;
use crate::measurement::ascending;
use crate::measurement::all_finite_bits;
use crate::series::lemma_variation_series_is_sorted_permutation;
use crate::series::sort_measurements;
use crate::series::variation_series;

verus! {

/// Why a sequence of measurements cannot form a population.
#[derive(Clone, Copy, Debug, PartialEq, Eq, Structural)]
pub enum StatsError {
    /// There is no measurement at all, or one of them is an infinity or a NaN.
    InvalidInput,
    /// There is a single measurement: the corrected variance, which divides by
    /// the number of measurements less one, is undefined.
    InsufficientSamples,
}

/// The reason, if any, for which `values` cannot form a population. An empty
/// or non-finite input is reported before a single measurement is.
pub open spec fn rejection(values: Seq<u64>) -> Option<StatsError> {
    if values.len() == 0 || !all_finite(values) {
        Some(StatsError::InvalidInput)
    } else if values.len() == 1 {
        Some(StatsError::InsufficientSamples)
    } else {
        None
    }
}

/// What a population holds.
pub ghost struct PopulationView {
    /// The measurements in the order they were taken.
    pub population: Seq<u64>,
    /// The same measurements in ascending order.
    pub series: Seq<u64>,
}

impl PopulationView {
    /// The population that `values` form.
    pub open spec fn of(values: Seq<u64>) -> PopulationView {
        PopulationView { population: values, series: variation_series(values) }
    }

    /// A population holds at least two finite measurements together with
    /// their variation series.
    pub open spec fn valid(self) -> bool {
        &&& rejection(self.population) is None
        &&& self.series == variation_series(self.population)
    }
}

/// The variation series of a population is a rearrangement of its
/// measurements, each kept as often as it occurs, and it never decreases.
pub proof fn lemma_series_is_sorted_permutation(population: PopulationView)
    requires
        population.valid(),
    ensures
        population.series.to_multiset() == population.population.to_multiset(),
        population.series.len() == population.population.len(),
        ascending(population.series),
{
    lemma_variation_series_is_sorted_permutation(population.population);
}

/// A population is determined by its measurements: two populations formed of
/// the same measurements agree in everything they hold.
pub proof fn lemma_population_is_determined(first: PopulationView, second: PopulationView)
    requires
        first.valid(),
        second.valid(),
        first.population == second.population,
    ensures
        first == second,
{
}

/// The measurements under analysis together with their variation series.
pub struct StatisticalPopulation {
    statistical_population: Vec<u64>,
    variation_series: Vec<u64>,
}

impl View for StatisticalPopulation {
    type V = PopulationView;

    closed spec fn view(&self) -> PopulationView {
        PopulationView {
            population: self.statistical_population@,
            series: self.variation_series@,
        }
    }
}

impl StatisticalPopulation {
    #[verifier::type_invariant]
    spec fn well_formed(&self) -> bool {
        self@.valid()
    }

    /// Forms the population of `input`. An empty input and one that holds an
    /// infinity or a NaN are refused as invalid, a single measurement as
    /// insufficient; any other input gives its population.
    pub fn new(input: &Vec<u64>) -> (result: Result<StatisticalPopulation, StatsError>)
        ensures
            match result {
                Ok(population) => rejection(input@) is None && population@ == PopulationView::of(
                    input@,
                ),
                Err(error) => rejection(input@) == Some(error),
            },
    {
        if input.len() == 0 || !all_finite_bits(input) {
            return Err(StatsError::InvalidInput);
        }
        if input.len() == 1 {
            return Err(StatsError::InsufficientSamples);
        }
        let statistical_population = input.clone();
        let variation_series = sort_measurements(input);
        Ok(StatisticalPopulation { statistical_population, variation_series })
    }

    /// The measurements in the order they were taken.
    pub fn statistical_population(&self) -> (values: &Vec<u64>)
        ensures
            values@ == self@.population,
            self@.valid(),
    {
        proof {
            use_type_invariant(self);
        }
        &self.statistical_population
    }

    /// The measurements in ascending order.
    pub fn variation_series(&self) -> (values: &Vec<u64>)
        ensures
            values@ == self@.series,
            self@.valid(),
    {
        proof {
            use_type_invariant(self);
        }
        &self.variation_series
    }

    /// The number of measurements.
    pub fn len(&self) -> (n: usize)
        ensures
            n == self@.population.len(),
            n >= 2,
    {
        proof {
            use_type_invariant(self);
        }
        self.statistical_population.len()
    }

    /// The divisor of the corrected variance: the number of measurements less
    /// one, which is never zero.
    pub fn degrees_of_freedom(&self) -> (n: usize)
        ensures
            n == self@.population.len() - 1,
            n >= 1,
    {
        proof {
            use_type_invariant(self);
        }
        self.statistical_population.len() - 1
    }
}

} // verus!
