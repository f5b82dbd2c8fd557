//! The per-slug counter record and its in-memory operations.

use vstd::prelude::*;

verus! {

/// Mathematical model of a [`PageStats`] record: the slug as a sequence of
/// characters and the four unsigned counters.
pub ghost struct StatsModel {
    pub slug: Seq<char>,
    pub reads: u64,
    pub views: u64,
    pub likes: u64,
    pub time: u64,
}

/// One engagement record per content slug.
///
/// All counters start at zero; `views`, `reads` and `likes` only ever grow,
/// and `time` is an accumulator of seconds.
#[derive(Debug, Clone, PartialEq, Eq)]
pub struct PageStats {
    pub slug: String,
    pub reads: u64,
    pub views: u64,
    pub likes: u64,
    pub time: u64,
}

impl View for PageStats {
    type V = StatsModel;

    open spec fn view(&self) -> StatsModel {
        StatsModel {
            slug: self.slug@,
            reads: self.reads,
            views: self.views,
            likes: self.likes,
            time: self.time,
        }
    }
}

impl DeepView for PageStats {
    type V = StatsModel;

    open spec fn deep_view(&self) -> StatsModel {
        self.view()
    }
}

/// The zero-valued record for a slug: what a slug that was never written
/// implicitly holds.
pub open spec fn zero_stats(slug: Seq<char>) -> StatsModel {
    StatsModel { slug: slug, reads: 0, views: 0, likes: 0, time: 0 }
}

impl PageStats {
    /// A fresh record for `slug` with every counter at zero.
    pub fn new(slug: &str) -> (r: Self)
        ensures
            r@ == zero_stats(slug@),
    {
        Self { slug: slug.to_owned(), reads: 0, views: 0, likes: 0, time: 0 }
    }

    pub fn increment_views(&mut self)
        requires
            old(self).views < u64::MAX,
        ensures
            final(self)@ == (StatsModel { views: (old(self).views + 1) as u64, ..old(self)@ }),
    {
        self.views = self.views + 1;
    }

    pub fn increment_reads(&mut self)
        requires
            old(self).reads < u64::MAX,
        ensures
            final(self)@ == (StatsModel { reads: (old(self).reads + 1) as u64, ..old(self)@ }),
    {
        self.reads = self.reads + 1;
    }

    pub fn increment_likes(&mut self)
        requires
            old(self).likes < u64::MAX,
        ensures
            final(self)@ == (StatsModel { likes: (old(self).likes + 1) as u64, ..old(self)@ }),
    {
        self.likes = self.likes + 1;
    }

    pub fn add_time(&mut self, seconds: u64)
        requires
            old(self).time + seconds <= u64::MAX,
        ensures
            final(self)@ == (StatsModel { time: (old(self).time + seconds) as u64, ..old(self)@ }),
    {
        self.time = self.time + seconds;
    }
}

impl Default for PageStats {
    /// The zero-valued record with an empty slug.
    fn default() -> (r: Self)
        ensures
            r@ == zero_stats(Seq::<char>::empty()),
    {
        Self { slug: String::new(), reads: 0, views: 0, likes: 0, time: 0 }
    }
}

} // verus!
