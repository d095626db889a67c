//! The popup: a query, the list of suggestions, and what each key does.
pub mod laws;
pub mod ranking;
pub mod render;

use fuzzy_matcher::skim::SkimMatcherV2;
use fuzzy_matcher::FuzzyMatcher;
use vstd::prelude::*;

use crate::protocol::{App, EntryView, Project};
use crate::text::is_control;
use crate::text::is_control_spec;
use ranking::{is_ranking, rank_matches};

verus! {

/// The score that a skim fuzzy matcher with default settings gives `choice`
/// for `pattern`; `None` when the pattern does not match.
pub uninterp spec fn skim_score(choice: Seq<char>, pattern: Seq<char>) -> Option<i64>;

/// Calls `FuzzyMatcher::fuzzy_match` of `fuzzy_matcher::skim::SkimMatcherV2`,
/// built with `SkimMatcherV2::default()`. The score is trusted to be a
/// function of the two strings alone (the matcher's caches only save work);
/// what it is for given strings is left to the name `skim_score`.
#[verifier::external_body]
fn fuzzy_score(choice: &str, pattern: &str) -> (res: Option<i64>)
    ensures
        res == skim_score(choice@, pattern@),
{
    SkimMatcherV2::default().fuzzy_match(choice, pattern)
}

/// An entry of the suggestion list: an installed program or a project.
pub enum SuggestionItem {
    App(App),
    Project(Project),
}

/// The mathematical value of a suggestion.
pub enum ItemView {
    App(EntryView),
    Project(EntryView),
}

impl ItemView {
    pub open spec fn entry(self) -> EntryView {
        match self {
            ItemView::App(e) => e,
            ItemView::Project(e) => e,
        }
    }

    pub open spec fn name(self) -> Seq<char> {
        self.entry().name
    }
}

impl View for SuggestionItem {
    type V = ItemView;

    open spec fn view(&self) -> ItemView {
        match self {
            SuggestionItem::App(a) => ItemView::App(a@),
            SuggestionItem::Project(p) => ItemView::Project(p@),
        }
    }
}

impl Clone for SuggestionItem {
    fn clone(&self) -> (res: Self)
        ensures
            res@ == self@,
    {
        match self {
            SuggestionItem::App(a) => SuggestionItem::App(a.clone()),
            SuggestionItem::Project(p) => SuggestionItem::Project(p.clone()),
        }
    }
}

/// The label shown in front of a suggestion.
pub open spec fn tag_spec(item: ItemView) -> Seq<char> {
    match item {
        ItemView::App(_) => "App"@,
        ItemView::Project(_) => "Project"@,
    }
}

/// A program to start and its arguments.
pub struct LaunchCommand {
    pub program: String,
    pub args: Vec<String>,
}

/// The mathematical value of a command.
pub struct CommandView {
    pub program: Seq<char>,
    pub args: Seq<Seq<char>>,
}

pub open spec fn strings_view(s: Seq<String>) -> Seq<Seq<char>> {
    s.map_values(|x: String| x@)
}

impl View for LaunchCommand {
    type V = CommandView;

    open spec fn view(&self) -> CommandView {
        CommandView { program: self.program@, args: strings_view(self.args@) }
    }
}

/// The shell line that opens a project: a terminal with a tmux session that
/// changes into the project directory and runs `tdl c`.
pub open spec fn project_shell_line(path: Seq<char>) -> Seq<char> {
    "kitty -e tmux new-session sh -c \"cd '"@ + path + "' && tdl c\""@
}

/// What choosing a suggestion starts: a program is run directly; a project
/// is opened through `sh -c` with `project_shell_line`.
pub open spec fn launch_spec(item: ItemView) -> CommandView {
    match item {
        ItemView::App(a) => CommandView { program: a.path, args: Seq::empty() },
        ItemView::Project(p) => CommandView {
            program: "sh"@,
            args: seq!["-c"@, project_shell_line(p.path)],
        },
    }
}

impl SuggestionItem {
    /// The name of the suggestion.
    pub fn name(&self) -> (res: &str)
        ensures
            res@ == self@.name(),
    {
        match self {
            SuggestionItem::App(a) => a.name.as_str(),
            SuggestionItem::Project(p) => p.name.as_str(),
        }
    }

    /// The kind of the suggestion, as shown in the list.
    pub fn tag(&self) -> (res: &str)
        ensures
            res@ == tag_spec(self@),
    {
        match self {
            SuggestionItem::App(_) => "App",
            SuggestionItem::Project(_) => "Project",
        }
    }

    /// The command that choosing this suggestion runs.
    pub fn launch_command(&self) -> (res: LaunchCommand)
        ensures
            res@ == launch_spec(self@),
    {
        match self {
            SuggestionItem::App(a) => {
                let args: Vec<String> = Vec::new();
                let res = LaunchCommand { program: a.path.clone(), args };
                assert(res@.args =~= Seq::<Seq<char>>::empty());
                res
            },
            SuggestionItem::Project(p) => {
                let mut line = String::from_str("kitty -e tmux new-session sh -c \"cd '");
                line.append(p.path.as_str());
                line.append("' && tdl c\"");
                let mut args: Vec<String> = Vec::new();
                args.push(String::from_str("-c"));
                args.push(line);
                let res = LaunchCommand { program: String::from_str("sh"), args };
                assert(res@.args =~= seq!["-c"@, project_shell_line(p.path@)]);
                res
            },
        }
    }
}

/// The values of a list of suggestions.
pub open spec fn items_view(s: Seq<SuggestionItem>) -> Seq<ItemView> {
    s.map_values(|x: SuggestionItem| x@)
}

/// The suggestions made from lists of projects and programs: the projects
/// first, then the programs, each list in its own order.
pub open spec fn suggestion_list(projects: Seq<Project>, apps: Seq<App>) -> Seq<ItemView> {
    projects.map_values(|p: Project| ItemView::Project(p@)) + apps.map_values(
        |a: App| ItemView::App(a@),
    )
}

/// The score of each suggestion's name for `query`.
pub open spec fn match_scores(items: Seq<ItemView>, query: Seq<char>) -> Seq<Option<i64>> {
    Seq::new(items.len(), |i: int| skim_score(items[i].name(), query))
}

/// The suggestions at the indices `r`, in that order.
pub open spec fn pick(items: Seq<ItemView>, r: Seq<usize>) -> Seq<ItemView> {
    r.map_values(|i: usize| items[i as int])
}

/// Whether `shown` is what the list shows for `query`: every suggestion when
/// the query is empty, and otherwise the suggestions whose name matches the
/// query, best score first, suggestions of equal score in list order.
pub open spec fn is_filtered(items: Seq<ItemView>, query: Seq<char>, shown: Seq<ItemView>) -> bool {
    if query.len() == 0 {
        shown == items
    } else {
        exists|r: Seq<usize>| is_ranking(match_scores(items, query), r) && shown == pick(items, r)
    }
}

/// The state of the popup.
pub struct PopupState {
    pub query: String,
    pub all_items: Vec<SuggestionItem>,
    pub filtered: Vec<SuggestionItem>,
    pub selected: usize,
}

/// The mathematical value of the popup's state.
#[verifier::ext_equal]
pub struct PopupView {
    pub query: Seq<char>,
    pub all_items: Seq<ItemView>,
    pub filtered: Seq<ItemView>,
    pub selected: nat,
}

impl View for PopupState {
    type V = PopupView;

    open spec fn view(&self) -> PopupView {
        PopupView {
            query: self.query@,
            all_items: items_view(self.all_items@),
            filtered: items_view(self.filtered@),
            selected: self.selected as nat,
        }
    }
}

impl PopupView {
    /// The shown list is the one the query calls for, and the selection is
    /// the first row or a row of the shown list.
    pub open spec fn consistent(self) -> bool {
        &&& is_filtered(self.all_items, self.query, self.filtered)
        &&& (self.selected == 0 || self.selected < self.filtered.len())
    }
}

/// A copy of a list of suggestions.
fn clone_items(v: &Vec<SuggestionItem>) -> (res: Vec<SuggestionItem>)
    ensures
        items_view(res@) == items_view(v@),
{
    let mut res: Vec<SuggestionItem> = Vec::new();
    for i in 0..v.len()
        invariant
            items_view(res@) =~= items_view(v@).take(i as int),
    {
        res.push(v[i].clone());
        assert(items_view(v@).take(i + 1) =~= items_view(v@).take(i as int).push(v@[i as int]@));
    }
    assert(items_view(v@).take(v@.len() as int) =~= items_view(v@));
    res
}

impl PopupState {
    /// A popup with an empty query that shows every suggestion, the projects
    /// before the programs, with the first row selected.
    pub fn new(projects: Vec<Project>, apps: Vec<App>) -> (res: Self)
        ensures
            res@.query == Seq::<char>::empty(),
            res@.all_items == suggestion_list(projects@, apps@),
            res@.filtered == res@.all_items,
            res@.selected == 0,
            res@.consistent(),
    {
        let mut all_items: Vec<SuggestionItem> = Vec::new();
        let ghost target = suggestion_list(projects@, apps@);
        let ghost np = projects@.len();
        for p in it: projects
            invariant
                it.seq() == projects@,
                target == suggestion_list(projects@, apps@),
                np == projects@.len(),
                items_view(all_items@) =~= target.take(it.index() as int),
        {
            all_items.push(SuggestionItem::Project(p));
            assert(target.take(it.index() + 1) =~= target.take(it.index() as int).push(
                ItemView::Project(p@),
            ));
        }
        for a in it: apps
            invariant
                it.seq() == apps@,
                target == suggestion_list(projects@, apps@),
                np == projects@.len(),
                items_view(all_items@) =~= target.take(np + it.index()),
        {
            all_items.push(SuggestionItem::App(a));
            assert(target.take(np + it.index() + 1) =~= target.take(np + it.index()).push(
                ItemView::App(a@),
            ));
        }
        assert(target.take(target.len() as int) =~= target);
        let filtered = clone_items(&all_items);
        let res = PopupState { query: String::new(), all_items, filtered, selected: 0 };
        res
    }

    /// Recomputes the shown list for the current query and selects its first row.
    pub fn update_filter(&mut self)
        ensures
            final(self)@.query == old(self)@.query,
            final(self)@.all_items == old(self)@.all_items,
            is_filtered(final(self)@.all_items, final(self)@.query, final(self)@.filtered),
            final(self)@.selected == 0,
    {
        if self.query.as_str().is_empty() {
            self.filtered = clone_items(&self.all_items);
        } else {
            let n = self.all_items.len();
            let mut scores: Vec<Option<i64>> = Vec::new();
            let ghost items = items_view(self.all_items@);
            for i in 0..n
                invariant
                    n == self.all_items@.len(),
                    items == items_view(self.all_items@),
                    scores@ =~= match_scores(items, self.query@).take(i as int),
            {
                let sc = fuzzy_score(self.all_items[i].name(), self.query.as_str());
                scores.push(sc);
                assert(match_scores(items, self.query@).take(i + 1) =~= match_scores(
                    items,
                    self.query@,
                ).take(i as int).push(sc));
            }
            assert(match_scores(items, self.query@).take(n as int) =~= match_scores(
                items,
                self.query@,
            ));
            let r = rank_matches(&scores);
            let mut out: Vec<SuggestionItem> = Vec::new();
            for k in 0..r.len()
                invariant
                    is_ranking(scores@, r@),
                    scores@.len() == n,
                    n == self.all_items@.len(),
                    items == items_view(self.all_items@),
                    items_view(out@) =~= pick(items, r@).take(k as int),
            {
                assert(r@[k as int] < n);
                out.push(self.all_items[r[k]].clone());
                assert(pick(items, r@).take(k + 1) =~= pick(items, r@).take(k as int).push(
                    items[r@[k as int] as int],
                ));
            }
            assert(pick(items, r@).take(r@.len() as int) =~= pick(items, r@));
            self.filtered = out;
        }
        self.selected = 0;
    }
}

/// A key event that the popup reacts to.
pub enum Key {
    Escape,
    Enter,
    Backspace,
    ArrowUp,
    ArrowDown,
    /// A key that produces text.
    Character(String),
    /// Any other key.
    Other,
}

/// The mathematical value of a key.
pub enum KeyView {
    Escape,
    Enter,
    Backspace,
    ArrowUp,
    ArrowDown,
    Character(Seq<char>),
    Other,
}

impl View for Key {
    type V = KeyView;

    open spec fn view(&self) -> KeyView {
        match self {
            Key::Escape => KeyView::Escape,
            Key::Enter => KeyView::Enter,
            Key::Backspace => KeyView::Backspace,
            Key::ArrowUp => KeyView::ArrowUp,
            Key::ArrowDown => KeyView::ArrowDown,
            Key::Character(c) => KeyView::Character(c@),
            Key::Other => KeyView::Other,
        }
    }
}

/// What the popup asks of its window after a key.
pub enum PopupAction {
    /// Close the popup, after starting the command if there is one.
    Close(Option<LaunchCommand>),
    /// Keep the popup open and draw it again.
    Refresh,
}

/// The mathematical value of an action.
pub enum ActionView {
    Close(Option<CommandView>),
    Refresh,
}

impl View for PopupAction {
    type V = ActionView;

    open spec fn view(&self) -> ActionView {
        match self {
            PopupAction::Close(Some(c)) => ActionView::Close(Some(c@)),
            PopupAction::Close(None) => ActionView::Close(None),
            PopupAction::Refresh => ActionView::Refresh,
        }
    }
}

/// Text that the query takes: nothing, or text that does not begin with a
/// control character.
pub open spec fn accepts_text(c: Seq<char>) -> bool {
    c.len() == 0 || !is_control_spec(c[0])
}

/// `new` holds `query`, the same suggestions as `old`, the list that the
/// query calls for, and the first row selected.
pub open spec fn requeried(old: PopupView, new: PopupView, query: Seq<char>) -> bool {
    &&& new.query == query
    &&& new.all_items == old.all_items
    &&& is_filtered(new.all_items, query, new.filtered)
    &&& new.selected == 0
}

/// `old` with another selected row.
pub open spec fn with_selected(old: PopupView, selected: nat) -> PopupView {
    PopupView { selected, ..old }
}

/// What a key does: from state `old`, with the key pressed or released, to
/// state `new`, asking the window for `action`.
pub open spec fn key_step(
    old: PopupView,
    pressed: bool,
    key: KeyView,
    new: PopupView,
    action: ActionView,
) -> bool {
    if !pressed {
        new == old && action == ActionView::Refresh
    } else {
        match key {
            KeyView::Escape => new == old && action == ActionView::Close(None),
            KeyView::Enter => new == old && action == ActionView::Close(
                if old.selected < old.filtered.len() {
                    Some(launch_spec(old.filtered[old.selected as int]))
                } else {
                    None
                },
            ),
            KeyView::Backspace => action == ActionView::Refresh && if old.query.len() > 0 {
                requeried(old, new, old.query.drop_last())
            } else {
                new == old
            },
            KeyView::ArrowUp => action == ActionView::Refresh && new == with_selected(
                old,
                if old.selected > 0 {
                    (old.selected - 1) as nat
                } else {
                    old.selected
                },
            ),
            KeyView::ArrowDown => action == ActionView::Refresh && new == with_selected(
                old,
                if old.selected + 1 < old.filtered.len() {
                    old.selected + 1
                } else {
                    old.selected
                },
            ),
            KeyView::Character(c) => action == ActionView::Refresh && if accepts_text(c) {
                requeried(old, new, old.query + c)
            } else {
                new == old
            },
            KeyView::Other => new == old && action == ActionView::Refresh,
        }
    }
}

impl PopupState {
    /// Applies a key event: Escape closes; Enter closes and starts the
    /// selected suggestion; Backspace erases the last character of the query;
    /// the arrows move the selection within the list; text is appended to
    /// the query unless it begins with a control character.
    pub fn handle_key(&mut self, pressed: bool, key: &Key) -> (res: PopupAction)
        ensures
            key_step(old(self)@, pressed, key@, final(self)@, res@),
    {
        if !pressed {
            return PopupAction::Refresh;
        }
        match key {
            Key::Escape => PopupAction::Close(None),
            Key::Enter => {
                if self.selected < self.filtered.len() {
                    PopupAction::Close(Some(self.filtered[self.selected].launch_command()))
                } else {
                    PopupAction::Close(None)
                }
            },
            Key::Backspace => {
                if !self.query.as_str().is_empty() {
                    self.query.pop();
                    self.update_filter();
                }
                PopupAction::Refresh
            },
            Key::ArrowUp => {
                if self.selected > 0 {
                    self.selected = self.selected - 1;
                }
                PopupAction::Refresh
            },
            Key::ArrowDown => {
                if self.filtered.len() > 0 && self.selected < self.filtered.len() - 1 {
                    self.selected = self.selected + 1;
                }
                PopupAction::Refresh
            },
            Key::Character(c) => {
                let text = c.as_str();
                let n = text.unicode_len();
                if n == 0 || !is_control(text.get_char(0)) {
                    self.query.append(text);
                    self.update_filter();
                }
                PopupAction::Refresh
            },
            Key::Other => PopupAction::Refresh,
        }
    }
}

} // verus!
