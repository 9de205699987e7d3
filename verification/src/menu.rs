//! The tray menu: the ids of its items and what choosing one asks for.
use vstd::prelude::*;
use crate::polling::{TrackedMatch, TrackedView, tracked_view};
use crate::text::{begins_with, chars_of, same_text, slice_chars, starts_with, string_of};

verus! {

/// The id of the menu item that selects a match: "match_SPORT_SERIES_MATCH".
pub open spec fn item_id(sport: Seq<char>, series_id: Seq<char>, match_id: Seq<char>) -> Seq<char> {
    "match_"@ + sport + "_"@ + series_id + "_"@ + match_id
}

/// The id of the menu item that selects a match.
pub fn menu_item_id(sport: &str, series_id: &str, match_id: &str) -> (r: String)
    ensures
        r@ == item_id(sport@, series_id@, match_id@),
{
    let mut r = "match_".to_owned();
    r.append(sport);
    r.append("_");
    r.append(series_id);
    r.append("_");
    r.append(match_id);
    r
}

/// The index of the first `c` in `s`.
pub open spec fn first_char_index(s: Seq<char>, c: char) -> Option<int>
    decreases s.len(),
{
    if s.len() == 0 {
        None
    } else if s[0] == c {
        Some(0)
    } else {
        match first_char_index(s.drop_first(), c) {
            Some(i) => Some(i + 1),
            None => None,
        }
    }
}

/// The index of the last `c` in `s`.
pub open spec fn last_char_index(s: Seq<char>, c: char) -> Option<int>
    decreases s.len(),
{
    if s.len() == 0 {
        None
    } else if s.last() == c {
        Some(s.len() - 1)
    } else {
        last_char_index(s.drop_last(), c)
    }
}

/// The match a selection payload "SPORT_SERIES_MATCH" names: the sport
/// before the first `_`, the match after the last, and the series between
/// them; none when the payload has fewer than two `_`.
pub open spec fn selection(payload: Seq<char>) -> Option<TrackedView> {
    match (first_char_index(payload, '_'), last_char_index(payload, '_')) {
        (Some(f), Some(l)) => if f < l {
            Some((payload.take(f), payload.subrange(f + 1, l), payload.skip(l + 1)))
        } else {
            None
        },
        _ => None,
    }
}

/// What choosing a tray menu item asks for.
#[derive(Debug)]
pub enum MenuAction {
    ShowDashboard,
    Quit,
    Select(TrackedMatch),
    Ignore,
}

/// What choosing a tray menu item asks for, as texts.
pub enum MenuActionView {
    ShowDashboard,
    Quit,
    Select(TrackedView),
    Ignore,
}

impl View for MenuAction {
    type V = MenuActionView;

    open spec fn view(&self) -> MenuActionView {
        match self {
            MenuAction::ShowDashboard => MenuActionView::ShowDashboard,
            MenuAction::Quit => MenuActionView::Quit,
            MenuAction::Select(t) => MenuActionView::Select(tracked_view(*t)),
            MenuAction::Ignore => MenuActionView::Ignore,
        }
    }
}

/// What choosing the menu item `id` asks for: "show_dashboard" and "quit"
/// ask for themselves, "match_" followed by a selection payload selects that
/// match, anything else is ignored.
pub open spec fn menu_action(id: Seq<char>) -> MenuActionView {
    if id == "show_dashboard"@ {
        MenuActionView::ShowDashboard
    } else if id == "quit"@ {
        MenuActionView::Quit
    } else if begins_with(id, "match_"@) {
        match selection(id.skip(6)) {
            Some(t) => MenuActionView::Select(t),
            None => MenuActionView::Ignore,
        }
    } else {
        MenuActionView::Ignore
    }
}

fn first_char_index_of(s: &Vec<char>, c: char) -> (r: Option<usize>)
    ensures
        match r {
            Some(i) => first_char_index(s@, c) == Some(i as int) && i < s.len(),
            None => first_char_index(s@, c) is None,
        },
{
    let n = s.len();
    let mut i: usize = 0;
    while i < n
        invariant
            i <= n,
            n == s.len(),
            forall|j: int| 0 <= j < i ==> s@[j] != c,
        decreases n - i,
    {
        if s[i] == c {
            proof {
                lemma_first_char_index(s@, c, i as int);
            }
            return Some(i);
        }
        i += 1;
    }
    proof {
        lemma_no_char(s@, c);
    }
    None
}

pub(crate) proof fn lemma_first_char_index(s: Seq<char>, c: char, i: int)
    requires
        0 <= i < s.len(),
        s[i] == c,
        forall|j: int| 0 <= j < i ==> s[j] != c,
    ensures
        first_char_index(s, c) == Some(i),
    decreases i,
{
    if i > 0 {
        lemma_first_char_index(s.drop_first(), c, i - 1);
    }
}

proof fn lemma_no_char(s: Seq<char>, c: char)
    requires
        forall|j: int| 0 <= j < s.len() ==> s[j] != c,
    ensures
        first_char_index(s, c) is None,
        last_char_index(s, c) is None,
    decreases s.len(),
{
    if s.len() > 0 {
        lemma_no_char(s.drop_first(), c);
        lemma_no_char(s.drop_last(), c);
    }
}

fn last_char_index_of(s: &Vec<char>, c: char) -> (r: Option<usize>)
    ensures
        match r {
            Some(i) => last_char_index(s@, c) == Some(i as int) && i < s.len(),
            None => last_char_index(s@, c) is None,
        },
{
    let n = s.len();
    let mut i: usize = n;
    assert(s@.take(n as int) =~= s@);
    while i > 0
        invariant
            i <= n,
            n == s.len(),
            last_char_index(s@, c) == last_char_index(s@.take(i as int), c),
        decreases i,
    {
        assert(s@.take(i as int).drop_last() =~= s@.take(i - 1));
        if s[i - 1] == c {
            return Some(i - 1);
        }
        i -= 1;
    }
    None
}

fn selection_of(payload: &Vec<char>) -> (r: Option<TrackedMatch>)
    ensures
        match r {
            Some(t) => selection(payload@) == Some(tracked_view(t)),
            None => selection(payload@) is None,
        },
{
    let n = payload.len();
    match (first_char_index_of(payload, '_'), last_char_index_of(payload, '_')) {
        (Some(f), Some(l)) => if f < l {
            let sport = slice_chars(payload, 0, f);
            let series = slice_chars(payload, f + 1, l);
            let m = slice_chars(payload, l + 1, n);
            assert(sport@ =~= payload@.take(f as int));
            assert(m@ =~= payload@.skip(l + 1));
            Some((string_of(&sport), string_of(&series), string_of(&m)))
        } else {
            None
        },
        _ => None,
    }
}

/// What choosing the menu item `id` asks for.
pub fn menu_action_of(id: &str) -> (r: MenuAction)
    ensures
        r@ == menu_action(id@),
{
    if same_text(id, "show_dashboard") {
        return MenuAction::ShowDashboard;
    }
    if same_text(id, "quit") {
        return MenuAction::Quit;
    }
    let s = chars_of(id);
    let prefix = chars_of("match_");
    proof {
        reveal_strlit("match_");
    }
    if starts_with(&s, &prefix) {
        let payload = slice_chars(&s, 6, s.len());
        assert(payload@ =~= s@.skip(6));
        match selection_of(&payload) {
            Some(t) => MenuAction::Select(t),
            None => MenuAction::Ignore,
        }
    } else {
        MenuAction::Ignore
    }
}

proof fn lemma_last_char_index(s: Seq<char>, c: char, i: int)
    requires
        0 <= i < s.len(),
        s[i] == c,
        forall|j: int| i < j < s.len() ==> s[j] != c,
    ensures
        last_char_index(s, c) == Some(i),
    decreases s.len(),
{
    if i < s.len() - 1 {
        lemma_last_char_index(s.drop_last(), c, i);
    }
}

/// Choosing the menu item made for a match selects that match again,
/// whenever neither its sport nor its match id contains `_` (the series id
/// may).
pub proof fn lemma_menu_item_round_trip(sport: Seq<char>, series_id: Seq<char>, match_id: Seq<char>)
    requires
        forall|i: int| 0 <= i < sport.len() ==> sport[i] != '_',
        forall|i: int| 0 <= i < match_id.len() ==> match_id[i] != '_',
    ensures
        menu_action(item_id(sport, series_id, match_id)) == MenuActionView::Select(
            (sport, series_id, match_id),
        ),
{
    reveal_strlit("match_");
    reveal_strlit("_");
    reveal_strlit("quit");
    reveal_strlit("show_dashboard");
    let id = item_id(sport, series_id, match_id);
    let payload = sport + "_"@ + series_id + "_"@ + match_id;
    assert(id =~= "match_"@ + payload);
    assert(id[0] == 'm');
    assert(id != "quit"@) by {
        assert("quit"@[0] == 'q');
    }
    assert(id != "show_dashboard"@) by {
        assert("show_dashboard"@[0] == 's');
    }
    assert(id.subrange(0, 6) =~= "match_"@);
    assert(id.skip(6) =~= payload);
    let f = sport.len() as int;
    let l = (sport.len() + 1 + series_id.len()) as int;
    assert(payload[f] == '_');
    assert(payload[l] == '_');
    assert forall|j: int| 0 <= j < f implies payload[j] != '_' by {
        assert(payload[j] == sport[j]);
    }
    assert forall|j: int| l < j < payload.len() implies payload[j] != '_' by {
        assert(payload[j] == match_id[j - l - 1]);
    }
    lemma_first_char_index(payload, '_', f);
    lemma_last_char_index(payload, '_', l);
    assert(payload.take(f) =~= sport);
    assert(payload.subrange(f + 1, l) =~= series_id);
    assert(payload.skip(l + 1) =~= match_id);
}

} // verus!
