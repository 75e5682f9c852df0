//! The four analyses made of one column of measurements: the whole of it and
//! three sub-samples.

use vstd::prelude::*;
use crate::population::rejection;
use crate::population::PopulationView;
use crate::population::StatisticalPopulation;
use crate::population::StatsError;
use crate::sampler::sample;
use crate::sampler::sampled;

verus! {

/// One of the four analyses, in the order in which they are reported.
#[derive(Clone, Copy, Debug, PartialEq, Eq, Structural)]
pub enum Pipeline {
    /// All measurements.
    General,
    /// Every second measurement.
    EachSecond,
    /// Every fifth measurement.
    EachFifth,
    /// Every fifth measurement, counted from the second.
    EachFifthFromSecond,
}

impl Pipeline {
    /// The 1-based start and the stride of the sample that the analysis is
    /// made of; none for the analysis of all measurements.
    pub open spec fn rule(self) -> Option<(nat, nat)> {
        match self {
            Pipeline::General => None,
            Pipeline::EachSecond => Some((1, 2)),
            Pipeline::EachFifth => Some((1, 5)),
            Pipeline::EachFifthFromSecond => Some((2, 5)),
        }
    }

    /// The measurements that the analysis is made of.
    pub open spec fn selection(self, measures: Seq<u64>) -> Seq<u64> {
        match self.rule() {
            None => measures,
            Some((start, stride)) => sampled(measures, start, stride),
        }
    }

    /// The name of the file that the chart of the analysis is written to.
    pub open spec fn chart_file(self) -> Seq<char> {
        match self {
            Pipeline::General => "general_frequency_range.png"@,
            Pipeline::EachSecond => "each_second_frequency_range.png"@,
            Pipeline::EachFifth => "each_fifth_frequency_range.png"@,
            Pipeline::EachFifthFromSecond => "each_fifth_from_second_frequency_range.png"@,
        }
    }

    /// The four analyses in the order in which they are reported.
    pub fn all() -> (pipelines: Vec<Pipeline>)
        ensures
            pipelines@ == seq![
                Pipeline::General,
                Pipeline::EachSecond,
                Pipeline::EachFifth,
                Pipeline::EachFifthFromSecond,
            ],
    {
        let mut pipelines: Vec<Pipeline> = Vec::new();
        pipelines.push(Pipeline::General);
        pipelines.push(Pipeline::EachSecond);
        pipelines.push(Pipeline::EachFifth);
        pipelines.push(Pipeline::EachFifthFromSecond);
        assert(pipelines@ =~= seq![
            Pipeline::General,
            Pipeline::EachSecond,
            Pipeline::EachFifth,
            Pipeline::EachFifthFromSecond,
        ]);
        pipelines
    }

    /// Selects from `measures` those that the analysis is made of.
    pub fn select(&self, measures: &Vec<u64>) -> (selected: Vec<u64>)
        ensures
            selected@ == self.selection(measures@),
    {
        match self {
            Pipeline::General => measures.clone(),
            Pipeline::EachSecond => sample(measures, 1, 2),
            Pipeline::EachFifth => sample(measures, 1, 5),
            Pipeline::EachFifthFromSecond => sample(measures, 2, 5),
        }
    }

    /// Forms the population of the analysis. It fails as the population of
    /// the selected measurements does: a sample that comes out empty is
    /// invalid input.
    pub fn analyse(&self, measures: &Vec<u64>) -> (result: Result<StatisticalPopulation, StatsError>)
        ensures
            match result {
                Ok(population) => rejection(self.selection(measures@)) is None && population@
                    == PopulationView::of(self.selection(measures@)),
                Err(error) => rejection(self.selection(measures@)) == Some(error),
            },
    {
        let selected = self.select(measures);
        StatisticalPopulation::new(&selected)
    }

    /// The name of the file that the chart of the analysis is written to.
    pub fn chart_file_name(&self) -> (name: &'static str)
        ensures
            name@ == self.chart_file(),
    {
        match self {
            Pipeline::General => "general_frequency_range.png",
            Pipeline::EachSecond => "each_second_frequency_range.png",
            Pipeline::EachFifth => "each_fifth_frequency_range.png",
            Pipeline::EachFifthFromSecond => "each_fifth_from_second_frequency_range.png",
        }
    }
}

/// A sample is empty exactly when fewer than a stride of values remain after
/// the skipped prefix.
pub proof fn lemma_sample_empty_iff_short(values: Seq<u64>, start: nat, stride: nat)
    requires
        start >= 1,
        stride >= 1,
    ensures
        sampled(values, start, stride).len() == 0 <==> values.len() < start - 1 + stride,
{
    if start - 1 < values.len() {
        let rest = values.len() - (start - 1);
        assert(rest / (stride as int) == 0 <==> rest < stride) by (nonlinear_arith)
            requires
                rest >= 0,
                stride >= 1,
        ;
    }
}

/// A sample that comes out empty cannot form a population: it is refused as
/// invalid input.
pub proof fn lemma_empty_sample_is_invalid_input(values: Seq<u64>, start: nat, stride: nat)
    requires
        start >= 1,
        stride >= 1,
        sampled(values, start, stride).len() == 0,
    ensures
        rejection(sampled(values, start, stride)) == Some(StatsError::InvalidInput),
{
}

} // verus!
