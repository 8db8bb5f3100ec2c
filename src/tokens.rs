//! Enumerated parameter values and their canonical tokens.
use vstd::prelude::*;

verus! {

/// The charts that the service publishes.
#[derive(Clone, Copy, Debug, PartialEq, Eq, Structural, Hash, PartialOrd, Ord)]
pub enum Chart {
    /// The editorial chart (`top`).
    TopEditorialChart,
    /// The most viewed lyrics of the last two hours (`hot`).
    HotMostViewedLyricsLast2Hours,
    /// The most viewed lyrics of the last seven days (`mxmweekly`).
    MxmWeeklyMostViewedLyricsLast7Days,
    /// The most viewed lyrics of the last seven days, new releases only
    /// (`mxmweekly_new`).
    MxmWeeklyNewMostViewedLyricsLast7DaysNewReleasesOnly,
}

/// The formats in which subtitles can be fetched.
#[derive(Clone, Copy, Debug, PartialEq, Eq, Structural, Hash, PartialOrd, Ord)]
pub enum SubtitleFormat {
    /// `lrc`
    Lrc,
    /// `dfxp`
    Dfxp,
    /// `stledu`
    Stledu,
}

/// A sort direction.
#[derive(Clone, Copy, Debug, PartialEq, Eq, Structural, Hash, PartialOrd, Ord)]
pub enum SortBy {
    /// `asc`
    Ascending,
    /// `desc`
    Desecending,
}

impl Chart {
    /// The token that stands for this chart in a query.
    pub open spec fn token(self) -> Seq<char> {
        match self {
            Chart::TopEditorialChart => seq!['t', 'o', 'p'],
            Chart::HotMostViewedLyricsLast2Hours => seq!['h', 'o', 't'],
            Chart::MxmWeeklyMostViewedLyricsLast7Days => seq!['m', 'x', 'm', 'w', 'e', 'e', 'k', 'l', 'y'],
            Chart::MxmWeeklyNewMostViewedLyricsLast7DaysNewReleasesOnly => seq![
                'm', 'x', 'm', 'w', 'e', 'e', 'k', 'l', 'y', '_', 'n', 'e', 'w',
            ],
        }
    }

    /// The token of this chart.
    pub fn as_str(&self) -> (r: &'static str)
        ensures
            r@ == self.token(),
    {
        match self {
            Chart::TopEditorialChart => {
                proof { reveal_strlit("top"); }
                "top"
            },
            Chart::HotMostViewedLyricsLast2Hours => {
                proof { reveal_strlit("hot"); }
                "hot"
            },
            Chart::MxmWeeklyMostViewedLyricsLast7Days => {
                proof { reveal_strlit("mxmweekly"); }
                "mxmweekly"
            },
            Chart::MxmWeeklyNewMostViewedLyricsLast7DaysNewReleasesOnly => {
                proof { reveal_strlit("mxmweekly_new"); }
                "mxmweekly_new"
            },
        }
    }

    /// The token of this chart, as an owned string.
    pub fn to_string(&self) -> (r: String)
        ensures
            r@ == self.token(),
    {
        self.as_str().to_owned()
    }
}

impl SubtitleFormat {
    /// The token that stands for this format in a query.
    pub open spec fn token(self) -> Seq<char> {
        match self {
            SubtitleFormat::Lrc => seq!['l', 'r', 'c'],
            SubtitleFormat::Dfxp => seq!['d', 'f', 'x', 'p'],
            SubtitleFormat::Stledu => seq!['s', 't', 'l', 'e', 'd', 'u'],
        }
    }

    /// The token of this format.
    pub fn as_str(&self) -> (r: &'static str)
        ensures
            r@ == self.token(),
    {
        match self {
            SubtitleFormat::Lrc => {
                proof { reveal_strlit("lrc"); }
                "lrc"
            },
            SubtitleFormat::Dfxp => {
                proof { reveal_strlit("dfxp"); }
                "dfxp"
            },
            SubtitleFormat::Stledu => {
                proof { reveal_strlit("stledu"); }
                "stledu"
            },
        }
    }

    /// The token of this format, as an owned string.
    pub fn to_string(&self) -> (r: String)
        ensures
            r@ == self.token(),
    {
        self.as_str().to_owned()
    }
}

impl SortBy {
    /// The token that stands for this direction in a query.
    pub open spec fn token(self) -> Seq<char> {
        match self {
            SortBy::Ascending => seq!['a', 's', 'c'],
            SortBy::Desecending => seq!['d', 'e', 's', 'c'],
        }
    }

    /// The token of this direction.
    pub fn as_str(&self) -> (r: &'static str)
        ensures
            r@ == self.token(),
    {
        match self {
            SortBy::Ascending => {
                proof { reveal_strlit("asc"); }
                "asc"
            },
            SortBy::Desecending => {
                proof { reveal_strlit("desc"); }
                "desc"
            },
        }
    }

    /// The token of this direction, as an owned string.
    pub fn to_string(&self) -> (r: String)
        ensures
            r@ == self.token(),
    {
        self.as_str().to_owned()
    }
}

/// Each enumerated value has exactly one token, and within each enumeration
/// distinct values have distinct tokens; no token is empty.
pub proof fn lemma_tokens_distinct()
    ensures
        forall|a: Chart, b: Chart| a != b ==> #[trigger] a.token() != #[trigger] b.token(),
        forall|a: SubtitleFormat, b: SubtitleFormat|
            a != b ==> #[trigger] a.token() != #[trigger] b.token(),
        forall|a: SortBy, b: SortBy| a != b ==> #[trigger] a.token() != #[trigger] b.token(),
        forall|a: Chart| #[trigger] a.token().len() > 0,
        forall|a: SubtitleFormat| #[trigger] a.token().len() > 0,
        forall|a: SortBy| #[trigger] a.token().len() > 0,
{
    assert forall|a: Chart, b: Chart| a != b implies #[trigger] a.token() != #[trigger] b.token() by {
        if a.token().len() == b.token().len() {
            assert(a.token()[0] != b.token()[0]);
        }
    }
}

} // verus!
