//! The display's navigation state and its response to key presses.
use vstd::prelude::*;

verus! {

/// A key press, as the display reads it.
#[derive(Clone, Copy, Debug, PartialEq, Eq, Structural)]
pub enum Key {
    Char(char),
    /// A function key, by number.
    F(u8),
    Up,
    Down,
    Other,
}

/// What the display is to do after a key press.
#[derive(Clone, Copy, Debug, PartialEq, Eq, Structural)]
pub enum KeyOutcome {
    Continue,
    Quit,
    /// Start the analysis pipeline in the background.
    Refresh,
}

/// Which indicator is shown, and whether a refresh is running.
#[derive(Clone, Copy, Debug, PartialEq, Eq, Structural)]
pub struct ViewState {
    pub is_refreshing: bool,
    pub indicator_count: usize,
    pub selected: usize,
}

impl ViewState {
    /// The selection points at an indicator, or is zero when there is none.
    pub open spec fn wf(self) -> bool {
        if self.indicator_count == 0 {
            self.selected == 0
        } else {
            self.selected < self.indicator_count
        }
    }

    /// The state on start-up: first indicator selected, nothing running.
    pub fn new(indicator_count: usize) -> (s: Self)
        ensures
            s == (ViewState { is_refreshing: false, indicator_count, selected: 0 }),
            s.wf(),
    {
        ViewState { is_refreshing: false, indicator_count, selected: 0 }
    }

    /// A refresh has ended, with new data or without.
    pub fn finish_refresh(&mut self)
        ensures
            *final(self) == (ViewState { is_refreshing: false, ..*old(self) }),
    {
        self.is_refreshing = false;
    }
}

/// The response to `key` in the state `s`: the state after it and what to do.
pub open spec fn key_spec(key: Key, s: ViewState) -> (ViewState, KeyOutcome) {
    let n = s.indicator_count;
    match key {
        Key::Char('q') => (s, KeyOutcome::Quit),
        Key::F(5) if !s.is_refreshing => (ViewState { is_refreshing: true, ..s }, KeyOutcome::Refresh),
        Key::Up => if n == 0 {
            (s, KeyOutcome::Continue)
        } else {
            (ViewState { selected: if s.selected == 0 { (n - 1) as usize } else { (s.selected - 1) as usize }, ..s }, KeyOutcome::Continue)
        },
        Key::Down => if n == 0 {
            (s, KeyOutcome::Continue)
        } else {
            (ViewState { selected: ((s.selected + 1) % (n as int)) as usize, ..s }, KeyOutcome::Continue)
        },
        Key::Char(c) => if '1' <= c <= '9' && (c as int - '0' as int) <= n {
            (ViewState { selected: (c as int - '1' as int) as usize, ..s }, KeyOutcome::Continue)
        } else {
            (s, KeyOutcome::Continue)
        },
        _ => (s, KeyOutcome::Continue),
    }
}

/// Updates the navigation state for a key press and says what the display is to do:
/// `q` quits, F5 starts a refresh unless one is running, the arrows cycle through the
/// indicators, and a digit from 1 selects that indicator when it exists.
pub fn handle_key_event(key: Key, app: &mut ViewState) -> (r: KeyOutcome)
    requires
        old(app).wf(),
    ensures
        (*final(app), r) == key_spec(key, *old(app)),
        final(app).wf(),
{
    let n = app.indicator_count;
    match key {
        Key::Char('q') => KeyOutcome::Quit,
        Key::F(5) if !app.is_refreshing => {
            app.is_refreshing = true;
            KeyOutcome::Refresh
        },
        Key::Up => {
            if n > 0 {
                app.selected = if app.selected == 0 {
                    n - 1
                } else {
                    app.selected - 1
                };
            }
            KeyOutcome::Continue
        },
        Key::Down => {
            if n > 0 {
                app.selected = (app.selected + 1) % n;
            }
            KeyOutcome::Continue
        },
        Key::Char(c) => {
            if '1' <= c && c <= '9' {
                let digit = (c as u32 - '0' as u32) as usize;
                if digit <= n {
                    app.selected = digit - 1;
                }
            }
            KeyOutcome::Continue
        },
        _ => KeyOutcome::Continue,
    }
}

/// The subtype tags as shown in a table cell: `N/A` when there are none, else the tags
/// separated by `, ` within parentheses.
pub open spec fn subtype_label_of(tags: Seq<Seq<char>>) -> Seq<char> {
    if tags.len() == 0 {
        "N/A"@
    } else {
        "("@ + joined(tags) + ")"@
    }
}

/// The tags separated by `, `.
pub open spec fn joined(tags: Seq<Seq<char>>) -> Seq<char>
    decreases tags.len(),
{
    if tags.len() == 0 {
        Seq::empty()
    } else if tags.len() == 1 {
        tags[0]
    } else {
        joined(tags.drop_last()) + ", "@ + tags.last()
    }
}

/// The subtype tags as shown in a table cell.
pub fn subtype_label(tags: &Vec<String>) -> (r: String)
    ensures
        r@ == subtype_label_of(tags@.map_values(|t: String| t@)),
{
    let ghost views = tags@.map_values(|t: String| t@);
    if tags.len() == 0 {
        return String::from_str("N/A");
    }
    let mut r = String::from_str("(");
    r.append(tags[0].as_str());
    let mut i: usize = 1;
    assert(views.subrange(0, 1) =~= seq![views[0]]);
    while i < tags.len()
        invariant
            1 <= i <= tags@.len(),
            views == tags@.map_values(|t: String| t@),
            r@ == "("@ + joined(views.subrange(0, i as int)),
        decreases tags.len() - i,
    {
        proof {
            let p = views.subrange(0, i + 1);
            assert(p.drop_last() =~= views.subrange(0, i as int));
            assert(p.last() == tags@[i as int]@);
        }
        r.append(", ");
        r.append(tags[i].as_str());
        assert(r@ =~= "("@ + joined(views.subrange(0, i + 1)));
        i = i + 1;
    }
    assert(views.subrange(0, i as int) =~= views);
    r.append(")");
    r
}

} // verus!
