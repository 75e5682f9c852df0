//! The text of the report: one labelled block of seven lines for each
//! analysis, or one line that says why the analysis could not be made.

use vstd::prelude::*;
use vstd::string::StringExecFns;
use crate::pipeline::Pipeline;
use crate::population::StatsError;

verus! {

/// The values of one block of the report, each already written out as text:
/// the two sequences as lists, the five moments with five decimal places.
pub struct ReportValues {
    /// The measurements in the order they were taken.
    pub statistical_population: String,
    /// The measurements in ascending order.
    pub variation_series: String,
    /// The mean.
    pub average: String,
    /// The variance.
    pub dispersion: String,
    /// The standard deviation.
    pub stddev: String,
    /// The corrected variance.
    pub corrected_dispersion: String,
    /// The corrected standard deviation.
    pub corrected_stddev: String,
}

impl ReportValues {
    /// The block of the report that shows the values: seven labelled lines,
    /// the last without a line end.
    pub open spec fn block(&self) -> Seq<char> {
        "Генеральная совокупность: "@ + self.statistical_population@ + "\n"@
            + "Вариационный ряд: "@ + self.variation_series@ + "\n"@
            + "Математическое ожидание: "@ + self.average@ + "\n"@
            + "Дисперсия: "@ + self.dispersion@ + "\n"@
            + "Стандартное отклонение: "@ + self.stddev@ + "\n"@
            + "Дисперсия исправленная: "@ + self.corrected_dispersion@ + "\n"@
            + "Стандартное отклонение исправленное: "@ + self.corrected_stddev@
    }

    /// Writes the block of the report that shows the values.
    pub fn format(&self) -> (text: String)
        ensures
            text@ == self.block(),
    {
        let mut text = String::new();
        text.append("Генеральная совокупность: ");
        text.append(self.statistical_population.as_str());
        text.append("\n");
        text.append("Вариационный ряд: ");
        text.append(self.variation_series.as_str());
        text.append("\n");
        text.append("Математическое ожидание: ");
        text.append(self.average.as_str());
        text.append("\n");
        text.append("Дисперсия: ");
        text.append(self.dispersion.as_str());
        text.append("\n");
        text.append("Стандартное отклонение: ");
        text.append(self.stddev.as_str());
        text.append("\n");
        text.append("Дисперсия исправленная: ");
        text.append(self.corrected_dispersion.as_str());
        text.append("\n");
        text.append("Стандартное отклонение исправленное: ");
        text.append(self.corrected_stddev.as_str());
        assert(text@ =~= self.block());
        text
    }
}

impl Pipeline {
    /// What stands above the block of the analysis in the report: nothing
    /// above the first, an empty line and the name of the sample above the
    /// others.
    pub open spec fn heading_text(self) -> Seq<char> {
        match self {
            Pipeline::General => ""@,
            Pipeline::EachSecond => "\nВыборка [каждый второй]:\n"@,
            Pipeline::EachFifth => "\nВыборка [каждый пятый]:\n"@,
            Pipeline::EachFifthFromSecond => "\nВыборка [каждый пятый со второго]:\n"@,
        }
    }

    /// What stands above the block of the analysis in the report.
    pub fn heading(&self) -> (text: &'static str)
        ensures
            text@ == self.heading_text(),
    {
        match self {
            Pipeline::General => "",
            Pipeline::EachSecond => "\nВыборка [каждый второй]:\n",
            Pipeline::EachFifth => "\nВыборка [каждый пятый]:\n",
            Pipeline::EachFifthFromSecond => "\nВыборка [каждый пятый со второго]:\n",
        }
    }
}

impl StatsError {
    /// What the report says of the failure.
    pub open spec fn message_text(self) -> Seq<char> {
        match self {
            StatsError::InvalidInput => "invalid input: no measurements, or one that is not finite"@,
            StatsError::InsufficientSamples =>
                "insufficient samples: one measurement has no corrected variance"@,
        }
    }

    /// What the report says of the failure.
    pub fn message(&self) -> (text: &'static str)
        ensures
            text@ == self.message_text(),
    {
        match self {
            StatsError::InvalidInput => "invalid input: no measurements, or one that is not finite",
            StatsError::InsufficientSamples =>
                "insufficient samples: one measurement has no corrected variance",
        }
    }
}

/// The section of the report for one analysis: its heading, then the block of
/// its values or, where it failed, the reason.
pub open spec fn section_text(
    pipeline: Pipeline,
    outcome: Result<ReportValues, StatsError>,
) -> Seq<char> {
    match outcome {
        Ok(values) => pipeline.heading_text() + values.block(),
        Err(error) => pipeline.heading_text() + error.message_text(),
    }
}

/// Writes the section of the report for one analysis.
pub fn format_section(pipeline: Pipeline, outcome: &Result<ReportValues, StatsError>) -> (text:
    String)
    ensures
        text@ == section_text(pipeline, *outcome),
{
    let mut text = String::new();
    text.append(pipeline.heading());
    match outcome {
        Ok(values) => {
            let block = values.format();
            text.append(block.as_str());
        },
        Err(error) => {
            text.append(error.message());
        },
    }
    assert(text@ =~= section_text(pipeline, *outcome));
    text
}

} // verus!
