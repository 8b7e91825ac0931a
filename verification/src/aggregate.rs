use vstd::prelude::*;
use vstd::string::StringExecFns;
use crate::collage::{composite_of, is_blank, lemma_empty_composite_is_blank, CompositeImage};
use crate::job::{payloads, worker_names, WorkerResult};
use crate::raster::{decode_images, pictures_of, RasterView};
use crate::tally::{
    attribution, attribution_text, is_ranking, lemma_ranking_is_unique, rank_workers,
    share_views, ShareView, WorkerShare,
};
use crate::text_utils::{duration_text, escape_markdown, escaped_text, format_duration};

verus! {

/// The attribution of `names`. There is one: `rank_workers` computes it,
/// and `lemma_ranking_is_unique` shows that there is no other.
pub open spec fn ranking_of(names: Seq<Seq<char>>) -> Seq<ShareView> {
    choose|ranking: Seq<ShareView>| is_ranking(names, ranking)
}

/// What a job has brought: one composite image and the workers to thank.
pub struct Aggregate {
    pub composite: CompositeImage,
    /// The workers' shares in the order in which they are shown.
    pub shares: Vec<WorkerShare>,
    /// The text that names the workers.
    pub attribution: String,
}

/// Turns the results of a job into one image and its attribution.
pub struct ResultAggregator {
    /// Edge length of a grid cell in pixels.
    pub size: u32,
}

impl ResultAggregator {
    pub fn new(size: u32) -> (aggregator: Self)
        ensures
            aggregator.size == size,
    {
        ResultAggregator { size }
    }

    /// Tallies the workers, decodes the payloads and drops those that do
    /// not decode, lays the pictures out in the grid and writes the
    /// attribution. Never fails: from no results it makes a blank
    /// composite and an empty attribution.
    pub fn aggregate(&self, results: &Vec<WorkerResult>) -> (out: Aggregate)
        ensures
            share_views(out.shares@) == ranking_of(worker_names(results@)),
            is_ranking(worker_names(results@), share_views(out.shares@)),
            out.composite@ == composite_of(pictures_of(payloads(results@)), self.size as nat),
            out.attribution@ == attribution_text(ranking_of(worker_names(results@))),
    {
        let shares = rank_workers(results);
        proof {
            let names = worker_names(results@);
            lemma_ranking_is_unique(names, share_views(shares@), ranking_of(names));
        }
        let tiles = decode_images(results);
        let composite = CompositeImage::compose(&tiles, self.size);
        let attribution = attribution(&shares);
        Aggregate { composite, shares, attribution }
    }
}

/// The caption of a finished job, in markdown: the prompt, the time the
/// job took and the workers, whose names are escaped.
pub open spec fn caption_text(escaped_prompt: Seq<char>, seconds: nat, attribution: Seq<char>)
    -> Seq<char> {
    "generated *"@ + escaped_prompt + "* in "@ + duration_text(seconds) + " by "@ + escaped_text(
        attribution,
    ) + "\\."@
}

pub fn caption(escaped_prompt: &str, seconds: u64, attribution: &str) -> (text: String)
    ensures
        text@ == caption_text(escaped_prompt@, seconds as nat, attribution@),
{
    let mut text = String::new();
    text.append("generated *");
    text.append(escaped_prompt);
    text.append("* in ");
    let took = format_duration(seconds);
    text.append(took.as_str());
    text.append(" by ");
    let workers = escape_markdown(attribution);
    text.append(workers.as_str());
    text.append("\\.");
    assert(text@ =~= caption_text(escaped_prompt@, seconds as nat, attribution@));
    text
}

/// No results give an empty attribution and a composite that shows
/// nothing.
pub proof fn lemma_nothing_from_nothing(cell: nat)
    ensures
        ranking_of(Seq::<Seq<char>>::empty()) == Seq::<ShareView>::empty(),
        attribution_text(ranking_of(Seq::<Seq<char>>::empty())) == Seq::<char>::empty(),
        pictures_of(Seq::<Seq<char>>::empty()) == Seq::<RasterView>::empty(),
        is_blank(composite_of(pictures_of(Seq::<Seq<char>>::empty()), cell)),
{
    let names = Seq::<Seq<char>>::empty();
    let none = Seq::<ShareView>::empty();
    assert(is_ranking(names, none));
    lemma_ranking_is_unique(names, none, ranking_of(names));
    lemma_empty_composite_is_blank(cell);
}

} // verus!
