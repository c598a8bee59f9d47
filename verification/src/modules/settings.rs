//! The settings of a variant model and of a search in it, as plain values.
//! A number with a fraction is held by the bits of its IEEE 754 form.

use vstd::prelude::*;
use crate::params::Number;

verus! {

/// The weights of the parts of a similarity score, each the bits of a
/// number of double precision.
#[derive(Debug, Clone, Copy, PartialEq, Eq)]
pub struct Weights {
    /// For the edit distance.
    pub ld: u64,
    /// For the length of the longest common substring.
    pub lcs: u64,
    /// For the length of the common prefix.
    pub prefix: u64,
    /// For the length of the common suffix.
    pub suffix: u64,
    /// For a difference in case.
    pub case: u64,
}

impl Weights {
    /// The weights of a model that sets none: a half for the edit distance
    /// and an eighth for each of the others.
    pub open spec fn standard() -> Weights {
        Weights {
            ld: 0x3FE0_0000_0000_0000,
            lcs: 0x3FC0_0000_0000_0000,
            prefix: 0x3FC0_0000_0000_0000,
            suffix: 0x3FC0_0000_0000_0000,
            case: 0x3FC0_0000_0000_0000,
        }
    }
}

/// Calls `Default::default` of `analiticcl::Weights`, which gives 0.5 for
/// the edit distance and 0.125 for each of the other four weights. Each is
/// returned by its bits.
#[verifier::external_body]
fn default_weights() -> (r: Weights)
    ensures
        r == Weights::standard(),
{
    let w = analiticcl::Weights::default();
    Weights {
        ld: w.ld.to_bits(),
        lcs: w.lcs.to_bits(),
        prefix: w.prefix.to_bits(),
        suffix: w.suffix.to_bits(),
        case: w.case.to_bits(),
    }
}

impl Default for Weights {
    fn default() -> (r: Self)
        ensures
            r == Weights::standard(),
    {
        default_weights()
    }
}

/// What is done with the frequency of a word that comes more than once.
#[derive(Debug, Clone, Copy, PartialEq, Eq)]
pub enum FrequencyHandling {
    Sum,
    Max,
    Min,
    Replace,
}

/// How a lexicon is read.
#[derive(Debug, Clone, Copy, PartialEq, Eq)]
pub struct VocabParams {
    /// The column of the word, counted from 0.
    pub text_column: u8,
    /// The column of the frequency, counted from 0, if there is one.
    pub freq_column: Option<u8>,
    /// What is done with the frequency of a word that comes more than once.
    pub freq_handling: FrequencyHandling,
    /// The flags of the type of the vocabulary.
    pub vocab_type: u8,
    /// The number of the lexicon.
    pub index: u8,
}

impl VocabParams {
    /// How a lexicon is read that says nothing about it: words in the
    /// first column, frequencies in the second, the highest frequency of a
    /// word kept, the words indexed for the search, lexicon 0.
    pub open spec fn standard() -> VocabParams {
        VocabParams {
            text_column: 0,
            freq_column: Some(1u8),
            freq_handling: FrequencyHandling::Max,
            vocab_type: 1,
            index: 0,
        }
    }
}

/// Calls `Default::default` of `analiticcl::VocabParams`, which gives
/// column 0 for the text, column 1 for the frequency, `Max` for the
/// handling of frequencies, the type `INDEXED`, whose bits are 1, and the
/// index 0.
#[verifier::external_body]
fn default_vocab_params() -> (r: VocabParams)
    ensures
        r == VocabParams::standard(),
{
    let p = analiticcl::VocabParams::default();
    VocabParams {
        text_column: p.text_column,
        freq_column: p.freq_column,
        freq_handling: match p.freq_handling {
            analiticcl::FrequencyHandling::Sum => FrequencyHandling::Sum,
            analiticcl::FrequencyHandling::Max => FrequencyHandling::Max,
            analiticcl::FrequencyHandling::Min => FrequencyHandling::Min,
            analiticcl::FrequencyHandling::Replace => FrequencyHandling::Replace,
        },
        vocab_type: p.vocab_type.bits(),
        index: p.index,
    }
}

impl Default for VocabParams {
    fn default() -> (r: Self)
        ensures
            r == VocabParams::standard(),
    {
        default_vocab_params()
    }
}

/// The greatest distance of a variant: a part of the length of the term,
/// held by the bits of a number of single precision, such a part with a
/// limit, or a number of characters.
#[derive(Debug, Clone, Copy, PartialEq, Eq)]
pub enum DistanceThreshold {
    Ratio(u32),
    RatioWithLimit(u32, u8),
    Absolute(u8),
}

/// When a search ends.
#[derive(Debug, Clone, Copy, PartialEq, Eq)]
pub enum StopCriterion {
    Exhaustive,
    StopAtExactMatch,
}

/// What a search for the variants of a term reads of the search parameters
/// of a variant model.
#[derive(Debug, Clone, Copy, PartialEq, Eq)]
pub struct SearchParameters {
    /// The greatest distance in characters, whatever their order.
    pub max_anagram_distance: DistanceThreshold,
    /// The greatest edit distance.
    pub max_edit_distance: DistanceThreshold,
    /// The greatest number of variants of a term; 0 for no limit.
    pub max_matches: usize,
    /// The score that a variant has at least.
    pub score_threshold: Number,
    /// How many times the best score may exceed that of a variant.
    pub cutoff_threshold: Number,
    /// When the search ends.
    pub stop_criterion: StopCriterion,
    /// The weight of the frequency in the order of the variants: the bits
    /// of a number of single precision.
    pub freq_weight: u32,
}

impl SearchParameters {
    /// The parameters of a search that sets none: distances of 3
    /// characters, 20 variants, a score of 0.25 at least, a cutoff of 2, a
    /// search to the end, and no weight for the frequency.
    pub open spec fn standard() -> SearchParameters {
        SearchParameters {
            max_anagram_distance: DistanceThreshold::Absolute(3),
            max_edit_distance: DistanceThreshold::Absolute(3),
            max_matches: 20,
            score_threshold: Number::Real(0x3FD0_0000_0000_0000),
            cutoff_threshold: Number::Real(0x4000_0000_0000_0000),
            stop_criterion: StopCriterion::Exhaustive,
            freq_weight: 0,
        }
    }
}

/// Calls `Default::default` of `analiticcl::SearchParameters`, which gives
/// absolute distances of 3, 20 matches, the score threshold 0.25, the
/// cutoff threshold 2.0, an exhaustive search and the frequency weight 0.0.
/// Of its fields those are returned that the search for variants reads.
#[verifier::external_body]
fn default_search_parameters() -> (r: SearchParameters)
    ensures
        r == SearchParameters::standard(),
{
    let p = analiticcl::SearchParameters::default();
    let plain = |d| match d {
        analiticcl::DistanceThreshold::Ratio(r) => DistanceThreshold::Ratio(r.to_bits()),
        analiticcl::DistanceThreshold::RatioWithLimit(r, n) => DistanceThreshold::RatioWithLimit(r.to_bits(), n),
        analiticcl::DistanceThreshold::Absolute(n) => DistanceThreshold::Absolute(n),
    };
    SearchParameters {
        max_anagram_distance: plain(p.max_anagram_distance), max_edit_distance: plain(p.max_edit_distance),
        max_matches: p.max_matches, freq_weight: p.freq_weight.to_bits(),
        score_threshold: Number::Real(p.score_threshold.to_bits()), cutoff_threshold: Number::Real(p.cutoff_threshold.to_bits()),
        stop_criterion: match p.stop_criterion {
            analiticcl::StopCriterion::Exhaustive => StopCriterion::Exhaustive,
            analiticcl::StopCriterion::StopAtExactMatch => StopCriterion::StopAtExactMatch,
        },
    }
}

impl Default for SearchParameters {
    fn default() -> (r: Self)
        ensures
            r == SearchParameters::standard(),
    {
        default_search_parameters()
    }
}

} // verus!
