//! The calendar view a user sees first.
use vstd::prelude::*;

use crate::text::str_equals;

verus! {

/// The view shown first: one day or one week.
#[derive(Debug, Clone, Copy, PartialEq, Eq, Structural)]
pub enum DefaultView {
    Day,
    Week,
}

impl Default for DefaultView {
    fn default() -> (r: Self)
        ensures
            r == DefaultView::Day,
    {
        DefaultView::Day
    }
}

/// The stored name of a view.
pub open spec fn view_name(v: DefaultView) -> Seq<char> {
    match v {
        DefaultView::Day => "day"@,
        DefaultView::Week => "week"@,
    }
}

/// The view stored under a name, if any.
pub open spec fn view_named(value: Seq<char>) -> Option<DefaultView> {
    if value == "day"@ {
        Some(DefaultView::Day)
    } else if value == "week"@ {
        Some(DefaultView::Week)
    } else {
        None
    }
}

impl DefaultView {
    /// The stored name: `day` or `week`.
    pub fn as_str(self) -> (r: &'static str)
        ensures
            r@ == view_name(self),
    {
        match self {
            DefaultView::Day => "day",
            DefaultView::Week => "week",
        }
    }

    /// The view named `day` or `week`; any other text (case included) is refused.
    pub fn parse(value: &str) -> (r: Option<Self>)
        ensures
            r == view_named(value@),
    {
        if str_equals(value, "day") {
            Some(DefaultView::Day)
        } else if str_equals(value, "week") {
            Some(DefaultView::Week)
        } else {
            None
        }
    }
}

/// Reading back the stored name of a view gives the view.
pub proof fn law_view_name_roundtrip(v: DefaultView)
    ensures
        view_named(view_name(v)) == Some(v),
{
    reveal_strlit("day");
    reveal_strlit("week");
    if v is Week {
        assert("week"@[0] != "day"@[0]);
    }
}

} // verus!
