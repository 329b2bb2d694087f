//! The title screen shared by the apps: its menu, how the "more tools" entries are laid
//! out in rows, and what a click on an entry does.
use vstd::prelude::*;
use crate::text::{chars_of, join2, owned, str_eq, string_from_chars};

verus! {

/// Where an entry stands on the title screen.
#[derive(Clone, Copy, Debug, PartialEq, Eq, Structural)]
pub enum MenuSection {
    Primary,
    Secondary,
    More,
}

/// What an entry of the title screen does.
#[derive(Clone, Copy, Debug, PartialEq, Eq, Structural)]
pub enum MenuAction {
    ExploreCity,
    OpenProject,
    BeginnerHelp,
    SimulationChallenges,
    CommunityProposals,
    Ungap,
    FifteenMinuteNeighbourhoods,
    LowTrafficNeighbourhoods,
    ActDev,
    AdvancedTools,
    About,
}

/// An entry of the title screen's menu.
#[derive(Clone, Copy, Debug)]
pub struct MenuEntry {
    pub label: &'static str,
    pub tooltip: &'static str,
    pub action: MenuAction,
    pub section: MenuSection,
}

/// The order of the menu's entries.
pub open spec fn menu_order() -> Seq<MenuAction> {
    seq![
        MenuAction::ExploreCity,
        MenuAction::OpenProject,
        MenuAction::BeginnerHelp,
        MenuAction::SimulationChallenges,
        MenuAction::CommunityProposals,
        MenuAction::Ungap,
        MenuAction::FifteenMinuteNeighbourhoods,
        MenuAction::LowTrafficNeighbourhoods,
        MenuAction::ActDev,
        MenuAction::AdvancedTools,
        MenuAction::About,
    ]
}

/// The label of an action's entry.
pub open spec fn label_of(a: MenuAction) -> Seq<char> {
    match a {
        MenuAction::ExploreCity => "Explore a city"@,
        MenuAction::OpenProject => "Open a project"@,
        MenuAction::BeginnerHelp => "New here?"@,
        MenuAction::SimulationChallenges => "Traffic simulation challenges"@,
        MenuAction::CommunityProposals => "Community proposals"@,
        MenuAction::Ungap => "Ungap the Map"@,
        MenuAction::FifteenMinuteNeighbourhoods => "15-minute neighbourhoods"@,
        MenuAction::LowTrafficNeighbourhoods => "Low traffic neighbourhoods"@,
        MenuAction::ActDev => "ActDev"@,
        MenuAction::AdvancedTools => "Advanced tools"@,
        MenuAction::About => "About"@,
    }
}

/// The tooltip of an action's entry.
pub open spec fn tooltip_of(a: MenuAction) -> Seq<char> {
    match a {
        MenuAction::ExploreCity => "Choose a real city, observe traffic, and test street changes"@,
        MenuAction::OpenProject => "Open an existing street-change proposal"@,
        MenuAction::BeginnerHelp => "Learn the basic A/B Street workflow"@,
        MenuAction::SimulationChallenges => "Complete specific objectives in the traffic simulator"@,
        MenuAction::CommunityProposals => "Try proposals for changing different cities"@,
        MenuAction::Ungap => "Improve a city's bike network"@,
        MenuAction::FifteenMinuteNeighbourhoods => "Explore what places residents can easily reach"@,
        MenuAction::LowTrafficNeighbourhoods => "Reduce vehicle shortcuts through residential streets"@,
        MenuAction::ActDev => "Explore mobility patterns around new residential development"@,
        MenuAction::AdvancedTools => "Open specialist and developer tools"@,
        MenuAction::About => "About A/B Street and its simulation assumptions"@,
    }
}

/// The section of an action's entry: exploring a city is the one primary action; opening
/// a project and the beginner's help are secondary; the rest are more tools.
pub open spec fn section_of(a: MenuAction) -> MenuSection {
    match a {
        MenuAction::ExploreCity => MenuSection::Primary,
        MenuAction::OpenProject | MenuAction::BeginnerHelp => MenuSection::Secondary,
        _ => MenuSection::More,
    }
}

/// `e` is the entry of action `a`.
pub open spec fn is_entry_of(e: MenuEntry, a: MenuAction) -> bool {
    &&& e.action == a
    &&& e.label@ == label_of(a)
    &&& e.tooltip@ == tooltip_of(a)
    &&& e.section == section_of(a)
}

impl MenuAction {
    /// The label of this action's entry.
    pub fn label(self) -> (l: &'static str)
        ensures
            l@ == label_of(self),
    {
        match self {
            MenuAction::ExploreCity => "Explore a city",
            MenuAction::OpenProject => "Open a project",
            MenuAction::BeginnerHelp => "New here?",
            MenuAction::SimulationChallenges => "Traffic simulation challenges",
            MenuAction::CommunityProposals => "Community proposals",
            MenuAction::Ungap => "Ungap the Map",
            MenuAction::FifteenMinuteNeighbourhoods => "15-minute neighbourhoods",
            MenuAction::LowTrafficNeighbourhoods => "Low traffic neighbourhoods",
            MenuAction::ActDev => "ActDev",
            MenuAction::AdvancedTools => "Advanced tools",
            MenuAction::About => "About",
        }
    }

    /// The tooltip of this action's entry.
    pub fn tooltip(self) -> (t: &'static str)
        ensures
            t@ == tooltip_of(self),
    {
        match self {
            MenuAction::ExploreCity => "Choose a real city, observe traffic, and test street changes",
            MenuAction::OpenProject => "Open an existing street-change proposal",
            MenuAction::BeginnerHelp => "Learn the basic A/B Street workflow",
            MenuAction::SimulationChallenges => "Complete specific objectives in the traffic simulator",
            MenuAction::CommunityProposals => "Try proposals for changing different cities",
            MenuAction::Ungap => "Improve a city's bike network",
            MenuAction::FifteenMinuteNeighbourhoods => "Explore what places residents can easily reach",
            MenuAction::LowTrafficNeighbourhoods => "Reduce vehicle shortcuts through residential streets",
            MenuAction::ActDev => "Explore mobility patterns around new residential development",
            MenuAction::AdvancedTools => "Open specialist and developer tools",
            MenuAction::About => "About A/B Street and its simulation assumptions",
        }
    }

    /// The section of this action's entry.
    pub fn section(self) -> (s: MenuSection)
        ensures
            s == section_of(self),
    {
        match self {
            MenuAction::ExploreCity => MenuSection::Primary,
            MenuAction::OpenProject | MenuAction::BeginnerHelp => MenuSection::Secondary,
            _ => MenuSection::More,
        }
    }
}

fn entry(action: MenuAction) -> (e: MenuEntry)
    ensures
        is_entry_of(e, action),
{
    MenuEntry {
        label: action.label(),
        tooltip: action.tooltip(),
        action,
        section: action.section(),
    }
}

/// The entries of the title screen's menu, in order.
pub fn main_menu_entries() -> (entries: Vec<MenuEntry>)
    ensures
        entries.len() == menu_order().len(),
        forall|i: int| 0 <= i < entries.len() ==> is_entry_of(#[trigger] entries@[i], menu_order()[i]),
{
    let mut v: Vec<MenuEntry> = Vec::new();
    v.push(entry(MenuAction::ExploreCity));
    v.push(entry(MenuAction::OpenProject));
    v.push(entry(MenuAction::BeginnerHelp));
    v.push(entry(MenuAction::SimulationChallenges));
    v.push(entry(MenuAction::CommunityProposals));
    v.push(entry(MenuAction::Ungap));
    v.push(entry(MenuAction::FifteenMinuteNeighbourhoods));
    v.push(entry(MenuAction::LowTrafficNeighbourhoods));
    v.push(entry(MenuAction::ActDev));
    v.push(entry(MenuAction::AdvancedTools));
    v.push(entry(MenuAction::About));
    v
}

/// Every action has exactly one entry in the menu.
pub proof fn lemma_each_action_listed_once(a: MenuAction)
    ensures
        exists|i: int| 0 <= i < menu_order().len() && menu_order()[i] == a,
        forall|i: int, j: int|
            0 <= i < menu_order().len() && 0 <= j < menu_order().len() && menu_order()[i] == a
                && menu_order()[j] == a ==> i == j,
{
    let o = menu_order();
    let k: int = match a {
        MenuAction::ExploreCity => 0,
        MenuAction::OpenProject => 1,
        MenuAction::BeginnerHelp => 2,
        MenuAction::SimulationChallenges => 3,
        MenuAction::CommunityProposals => 4,
        MenuAction::Ungap => 5,
        MenuAction::FifteenMinuteNeighbourhoods => 6,
        MenuAction::LowTrafficNeighbourhoods => 7,
        MenuAction::ActDev => 8,
        MenuAction::AdvancedTools => 9,
        MenuAction::About => 10,
    };
    assert(o[k] == a);
}

/// Exactly one entry is primary: exploring a city, the first.
pub proof fn lemma_one_primary_entry()
    ensures
        forall|i: int|
            0 <= i < menu_order().len() ==> (section_of(#[trigger] menu_order()[i])
                == MenuSection::Primary <==> i == 0),
        menu_order()[0] == MenuAction::ExploreCity,
{
}

/// The entry of `action`.
pub fn menu_entry(action: MenuAction) -> (e: MenuEntry)
    ensures
        is_entry_of(e, action),
{
    let entries = main_menu_entries();
    let mut i: usize = 0;
    proof {
        lemma_each_action_listed_once(action);
    }
    while i < entries.len()
        invariant
            i <= entries.len(),
            entries.len() == menu_order().len(),
            forall|k: int| 0 <= k < entries.len() ==> is_entry_of(#[trigger] entries@[k], menu_order()[k]),
            exists|k: int| i <= k < menu_order().len() && menu_order()[k] == action,
        decreases entries.len() - i,
    {
        if entries[i].action == action {
            return entries[i];
        }
        i = i + 1;
    }
    assert(false);
    entries[0]
}

/// The actions of the "more tools" section, in menu order.
pub open spec fn more_tools() -> Seq<MenuAction> {
    menu_order().filter(|a: MenuAction| section_of(a) == MenuSection::More)
}

/// The "more tools" entries cut into rows of `per_row`, the last row holding the rest.
pub open spec fn rows_of(actions: Seq<MenuAction>, per_row: nat) -> Seq<Seq<MenuAction>>
    decreases actions.len(),
{
    if actions.len() == 0 || per_row == 0 {
        Seq::empty()
    } else if actions.len() <= per_row {
        seq![actions]
    } else {
        seq![actions.take(per_row as int)] + rows_of(actions.skip(per_row as int), per_row)
    }
}

/// The rows, one after the other.
pub open spec fn concat_rows(rows: Seq<Seq<MenuAction>>) -> Seq<MenuAction>
    decreases rows.len(),
{
    if rows.len() == 0 {
        Seq::empty()
    } else {
        rows[0] + concat_rows(rows.drop_first())
    }
}

/// Cutting into rows loses and reorders nothing: the rows, one after the other, are the
/// actions; every row holds between one and `per_row` of them, and all but the last hold
/// exactly `per_row`.
pub proof fn lemma_rows_partition(actions: Seq<MenuAction>, per_row: nat)
    requires
        per_row > 0,
    ensures
        concat_rows(rows_of(actions, per_row)) == actions,
        forall|i: int|
            0 <= i < rows_of(actions, per_row).len() ==> 0 < (#[trigger] rows_of(actions, per_row)[i]).len()
                <= per_row,
        forall|i: int|
            0 <= i < rows_of(actions, per_row).len() - 1 ==> (#[trigger] rows_of(actions, per_row)[i]).len()
                == per_row,
    decreases actions.len(),
{
    let rows = rows_of(actions, per_row);
    if actions.len() == 0 {
    } else if actions.len() <= per_row {
        assert(concat_rows(rows) == actions + concat_rows(rows.drop_first()));
        assert(rows.drop_first() =~= Seq::<Seq<MenuAction>>::empty());
        assert(actions + Seq::<MenuAction>::empty() =~= actions);
    } else {
        let rest = actions.skip(per_row as int);
        lemma_rows_partition(rest, per_row);
        assert(rows.drop_first() =~= rows_of(rest, per_row));
        assert(actions.take(per_row as int) + rest =~= actions);
        assert forall|i: int| 0 <= i < rows.len() implies 0 < (#[trigger] rows[i]).len() <= per_row by {
            if i > 0 {
                assert(rows[i] == rows_of(rest, per_row)[i - 1]);
            }
        }
        assert forall|i: int| 0 <= i < rows.len() - 1 implies (#[trigger] rows[i]).len() == per_row by {
            if i > 0 {
                assert(rows[i] == rows_of(rest, per_row)[i - 1]);
            }
        }
    }
}

/// How many "more tools" entries a row holds in a window this wide (in whole pixels): four
/// from 1200 pixels on, else two.
pub open spec fn tools_per_row(window_width: u64) -> nat {
    if window_width >= 1200 {
        4
    } else {
        2
    }
}

/// The "more tools" actions, cut into rows to fit a window of `window_width` whole pixels
/// (the width rounded down, which keeps the comparison with 1200 exact).
pub fn more_tool_rows(window_width: u64) -> (rows: Vec<Vec<MenuAction>>)
    ensures
        rows@.map_values(|r: Vec<MenuAction>| r@) == rows_of(more_tools(), tools_per_row(window_width)),
{
    let per_row: usize = if window_width >= 1200 {
        4
    } else {
        2
    };
    let entries = main_menu_entries();
    let mut more: Vec<MenuAction> = Vec::new();
    let mut i: usize = 0;
    while i < entries.len()
        invariant
            i <= entries.len(),
            entries.len() == menu_order().len(),
            forall|k: int| 0 <= k < entries.len() ==> is_entry_of(#[trigger] entries@[k], menu_order()[k]),
            more@ == menu_order().take(i as int).filter(|a: MenuAction| section_of(a) == MenuSection::More),
        decreases entries.len() - i,
    {
        proof {
            reveal(Seq::filter);
            assert(menu_order().take(i + 1).drop_last() =~= menu_order().take(i as int));
        }
        if entries[i].section == MenuSection::More {
            more.push(entries[i].action);
        }
        i = i + 1;
    }
    assert(menu_order().take(entries.len() as int) =~= menu_order());
    let mut rows: Vec<Vec<MenuAction>> = Vec::new();
    let mut start: usize = 0;
    assert(more@.skip(0) =~= more@);
    assert(rows@.map_values(|r: Vec<MenuAction>| r@) =~= Seq::<Seq<MenuAction>>::empty());
    while start < more.len()
        invariant
            more@ == more_tools(),
            per_row == tools_per_row(window_width),
            start <= more.len(),
            rows@.map_values(|r: Vec<MenuAction>| r@) + rows_of(more@.skip(start as int), per_row as nat)
                == rows_of(more@, per_row as nat),
        decreases more.len() - start,
    {
        let end = if more.len() - start <= per_row {
            more.len()
        } else {
            start + per_row
        };
        let mut row: Vec<MenuAction> = Vec::new();
        let mut k = start;
        while k < end
            invariant
                start <= k <= end,
                end <= more.len(),
                row@ == more@.subrange(start as int, k as int),
            decreases end - k,
        {
            row.push(more[k]);
            assert(more@.subrange(start as int, k + 1) =~= more@.subrange(start as int, k as int).push(more@[k as int]));
            k = k + 1;
        }
        let ghost before = rows@.map_values(|r: Vec<MenuAction>| r@);
        let ghost rest = more@.skip(start as int);
        rows.push(row);
        proof {
            assert(rows@.map_values(|r: Vec<MenuAction>| r@) =~= before.push(row@));
            if rest.len() <= per_row {
                assert(row@ =~= rest);
                assert(more@.skip(end as int) =~= Seq::<MenuAction>::empty());
            } else {
                assert(row@ =~= rest.take(per_row as int));
                assert(more@.skip(end as int) =~= rest.skip(per_row as int));
            }
            assert(before.push(row@) + rows_of(more@.skip(end as int), per_row as nat) =~= before + rows_of(rest, per_row as nat));
        }
        start = end;
    }
    assert(more@.skip(more.len() as int) =~= Seq::<MenuAction>::empty());
    assert(rows@.map_values(|r: Vec<MenuAction>| r@) =~= rows_of(more@, per_row as nat));
    rows
}

/// Every entry of the menu has exactly one button on the title screen, whatever the
/// window's width: the main buttons, then the "more tools" rows one after the other, list
/// the menu's actions in menu order.
pub proof fn lemma_one_button_per_entry(window_width: u64)
    ensures
        seq![MenuAction::ExploreCity, MenuAction::OpenProject, MenuAction::BeginnerHelp] + concat_rows(
            rows_of(more_tools(), tools_per_row(window_width)),
        ) == menu_order(),
{
    lemma_rows_partition(more_tools(), tools_per_row(window_width));
    assert(more_tools() =~= menu_order().skip(3)) by {
        reveal_with_fuel(Seq::filter, 12);
    }
    assert(seq![MenuAction::ExploreCity, MenuAction::OpenProject, MenuAction::BeginnerHelp]
        + menu_order().skip(3) =~= menu_order());
}

/// The decimal digit `d`.
pub open spec fn digit_char(d: nat) -> char {
    seq!['0', '1', '2', '3', '4', '5', '6', '7', '8', '9'][d as int]
}

/// The decimal numeral of `n`, without leading zeros.
pub open spec fn decimal(n: nat) -> Seq<char>
    decreases n,
{
    if n < 10 {
        seq![digit_char(n)]
    } else {
        decimal(n / 10).push(digit_char(n % 10))
    }
}

/// The decimal numeral of `n`, padded with leading zeros to `width` characters.
pub open spec fn padded(n: nat, width: nat) -> Seq<char> {
    let d = decimal(n);
    if d.len() >= width {
        d
    } else {
        Seq::new((width - d.len()) as nat, |i: int| '0') + d
    }
}

/// How a date's year is written: with four digits up to 9999, beyond that with a sign.
pub open spec fn year_text(year: nat) -> Seq<char> {
    if year <= 9999 {
        padded(year, 4)
    } else {
        "+"@ + decimal(year)
    }
}

/// The text that tells when this version was built: "This version built on
/// YYYY-MM-DD".
pub open spec fn version_text_of(year: nat, month: nat, day: nat) -> Seq<char> {
    "This version built on "@ + year_text(year) + "-"@ + padded(month, 2) + "-"@ + padded(day, 2)
}

fn digit(d: u32) -> (c: char)
    requires
        d < 10,
    ensures
        c == digit_char(d as nat),
{
    if d == 0 {
        '0'
    } else if d == 1 {
        '1'
    } else if d == 2 {
        '2'
    } else if d == 3 {
        '3'
    } else if d == 4 {
        '4'
    } else if d == 5 {
        '5'
    } else if d == 6 {
        '6'
    } else if d == 7 {
        '7'
    } else if d == 8 {
        '8'
    } else {
        '9'
    }
}

fn push_decimal(n: u32, out: &mut Vec<char>)
    ensures
        final(out)@ == old(out)@ + decimal(n as nat),
    decreases n,
{
    if n >= 10 {
        push_decimal(n / 10, out);
    }
    out.push(digit(n % 10));
    proof {
        if n >= 10 {
            assert(old(out)@ + decimal((n / 10) as nat) + seq![digit_char((n % 10) as nat)]
                =~= old(out)@ + decimal(n as nat));
        }
    }
}

fn push_padded(n: u32, width: usize, out: &mut Vec<char>)
    ensures
        final(out)@ == old(out)@ + padded(n as nat, width as nat),
{
    let mut digits: Vec<char> = Vec::new();
    push_decimal(n, &mut digits);
    assert(digits@ =~= decimal(n as nat));
    if digits.len() < width {
        let zeros = width - digits.len();
        let ghost start = out@;
        let mut k: usize = 0;
        while k < zeros
            invariant
                k <= zeros,
                out@ == start + Seq::new(k as nat, |i: int| '0'),
            decreases zeros - k,
        {
            out.push('0');
            assert(start + Seq::new((k + 1) as nat, |i: int| '0') =~= (start + Seq::new(
                k as nat,
                |i: int| '0',
            )).push('0'));
            k = k + 1;
        }
    }
    let ghost mid = out@;
    let mut j: usize = 0;
    while j < digits.len()
        invariant
            j <= digits.len(),
            out@ == mid + digits@.take(j as int),
        decreases digits.len() - j,
    {
        out.push(digits[j]);
        assert(digits@.take(j + 1) =~= digits@.take(j as int).push(digits@[j as int]));
        j = j + 1;
    }
    assert(digits@.take(digits.len() as int) =~= digits@);
    assert(out@ =~= old(out)@ + padded(n as nat, width as nat));
}

fn push_str(s: &str, out: &mut Vec<char>)
    ensures
        final(out)@ == old(out)@ + s@,
{
    let cs = chars_of(s);
    let ghost start = out@;
    let mut i: usize = 0;
    while i < cs.len()
        invariant
            i <= cs.len(),
            cs@ == s@,
            out@ == start + cs@.take(i as int),
        decreases cs.len() - i,
    {
        out.push(cs[i]);
        assert(cs@.take(i + 1) =~= cs@.take(i as int).push(cs@[i as int]));
        i = i + 1;
    }
    assert(cs@.take(cs.len() as int) =~= cs@);
}

/// The text at the foot of the title screen that tells when this version was built, on
/// the date `year`-`month`-`day`, written as dates are: four-digit years, years beyond
/// 9999 with a sign.
pub fn version_text(year: u32, month: u32, day: u32) -> (t: String)
    ensures
        t@ == version_text_of(year as nat, month as nat, day as nat),
{
    let mut out: Vec<char> = Vec::new();
    push_str("This version built on ", &mut out);
    if year <= 9999 {
        push_padded(year, 4, &mut out);
    } else {
        push_str("+", &mut out);
        push_decimal(year, &mut out);
    }
    push_str("-", &mut out);
    push_padded(month, 2, &mut out);
    push_str("-", &mut out);
    push_padded(day, 2, &mut out);
    assert(out@ =~= version_text_of(year as nat, month as nat, day as nat));
    string_from_chars(&out)
}

/// The apps that the title screen can start.
#[derive(Clone, Copy, Debug, PartialEq, Eq, Structural)]
pub enum Executable {
    ABStreet,
    FifteenMin,
    OSMViewer,
    ParkingMapper,
    RawMapEditor,
    LTN,
}

/// The name of the binary that runs an app natively.
pub open spec fn binary_name_of(e: Executable) -> Seq<char> {
    match e {
        Executable::ABStreet => "game"@,
        Executable::FifteenMin => "fifteen_min"@,
        Executable::OSMViewer => "osm_viewer"@,
        Executable::ParkingMapper => "parking_mapper"@,
        Executable::RawMapEditor => "map_editor"@,
        Executable::LTN => "ltn"@,
    }
}

/// The page that runs an app on the web; the parking mapper runs only natively.
pub open spec fn web_page_of(e: Executable) -> Option<Seq<char>> {
    match e {
        Executable::ABStreet => Some("abstreet"@),
        Executable::FifteenMin => Some("fifteen_min"@),
        Executable::OSMViewer => Some("osm_viewer"@),
        Executable::ParkingMapper => None,
        Executable::RawMapEditor => Some("map_editor"@),
        Executable::LTN => Some("ltn"@),
    }
}

/// Each app with the binary that runs it natively and the page that runs it on the web.
pub open spec fn app_table() -> Seq<(Executable, Seq<char>, Option<Seq<char>>)> {
    seq![
        (Executable::ABStreet, "game"@, Some("abstreet"@)),
        (Executable::FifteenMin, "fifteen_min"@, Some("fifteen_min"@)),
        (Executable::OSMViewer, "osm_viewer"@, Some("osm_viewer"@)),
        (Executable::ParkingMapper, "parking_mapper"@, None),
        (Executable::RawMapEditor, "map_editor"@, Some("map_editor"@)),
        (Executable::LTN, "ltn"@, Some("ltn"@)),
    ]
}

/// Each app runs from its own binary ("game", "fifteen_min", "osm_viewer",
/// "parking_mapper", "map_editor", "ltn") and, on the web, from its own page; only the
/// parking mapper has no page. No two apps share a binary or a page.
pub proof fn lemma_apps_run_from_their_own_binaries(e: Executable, f: Executable)
    ensures
        forall|i: int|
            0 <= i < app_table().len() ==> binary_name_of(#[trigger] app_table()[i].0) == app_table()[i].1
                && web_page_of(app_table()[i].0) == app_table()[i].2,
        e != f ==> binary_name_of(e) != binary_name_of(f),
        web_page_of(e) is None <==> e == Executable::ParkingMapper,
        e != f && web_page_of(e) is Some ==> web_page_of(e) != web_page_of(f),
{
    reveal_strlit("game");
    assert("game"@.len() == 4 && "game"@[0] == 'g');
    reveal_strlit("fifteen_min");
    assert("fifteen_min"@.len() == 11 && "fifteen_min"@[0] == 'f');
    reveal_strlit("osm_viewer");
    assert("osm_viewer"@.len() == 10 && "osm_viewer"@[0] == 'o');
    reveal_strlit("parking_mapper");
    assert("parking_mapper"@.len() == 14 && "parking_mapper"@[0] == 'p');
    reveal_strlit("map_editor");
    assert("map_editor"@.len() == 10 && "map_editor"@[0] == 'm');
    reveal_strlit("ltn");
    assert("ltn"@.len() == 3 && "ltn"@[0] == 'l');
    reveal_strlit("abstreet");
    assert("abstreet"@.len() == 8 && "abstreet"@[0] == 'a');
}

/// Four "more tools" entries fit in a row from 1200 pixels on, two below that.
pub proof fn lemma_rows_widen_at_1200_pixels(window_width: u64)
    ensures
        window_width >= 1200 ==> tools_per_row(window_width) == 4,
        window_width < 1200 ==> tools_per_row(window_width) == 2,
        tools_per_row(window_width) > 0,
{
}

/// Starting an app keeps the arguments given, in order, and adds the current map: the map
/// editor gets the raw map and the camera, every other app the map's path.
pub proof fn lemma_launch_keeps_args_and_adds_the_map(
    exe: Executable,
    args: Seq<Seq<char>>,
    map_path: Seq<char>,
    raw_map_path: Seq<char>,
    cam: Seq<char>,
)
    ensures
        launch_args(exe, args, map_path, raw_map_path, cam).subrange(0, args.len() as int) == args,
        exe != Executable::RawMapEditor ==> launch_args(exe, args, map_path, raw_map_path, cam).len()
            == args.len() + 1 && launch_args(exe, args, map_path, raw_map_path, cam)[args.len() as int]
            == map_path,
        exe == Executable::RawMapEditor ==> launch_args(exe, args, map_path, raw_map_path, cam).len()
            == args.len() + 2 && launch_args(exe, args, map_path, raw_map_path, cam)[args.len() as int]
            == raw_map_path && launch_args(exe, args, map_path, raw_map_path, cam)[args.len() + 1int] == "--cam="@
            + cam,
{
    assert(launch_args(exe, args, map_path, raw_map_path, cam).subrange(0, args.len() as int) =~= args);
}

impl Executable {
    /// The name of the binary that runs this app natively.
    pub fn binary_name(self) -> (name: &'static str)
        ensures
            name@ == binary_name_of(self),
    {
        match self {
            Executable::ABStreet => "game",
            Executable::FifteenMin => "fifteen_min",
            Executable::OSMViewer => "osm_viewer",
            Executable::ParkingMapper => "parking_mapper",
            Executable::RawMapEditor => "map_editor",
            Executable::LTN => "ltn",
        }
    }

    /// The page that runs this app on the web; the parking mapper runs only natively.
    pub fn web_page(self) -> (page: Option<&'static str>)
        ensures
            match page {
                Some(p) => web_page_of(self) == Some(p@),
                None => web_page_of(self) is None,
            },
    {
        match self {
            Executable::ABStreet => Some("abstreet"),
            Executable::FifteenMin => Some("fifteen_min"),
            Executable::OSMViewer => Some("osm_viewer"),
            Executable::ParkingMapper => None,
            Executable::RawMapEditor => Some("map_editor"),
            Executable::LTN => Some("ltn"),
        }
    }

    /// Whether the app is handed the raw map and the camera, rather than the map: only
    /// the raw map editor is.
    pub fn takes_raw_map(self) -> (r: bool)
        ensures
            r == (self == Executable::RawMapEditor),
    {
        match self {
            Executable::RawMapEditor => true,
            _ => false,
        }
    }
}

/// How to start another app: natively, the binary and its arguments; on the web, the page
/// (none for an app that runs only natively) and the arguments to pass in its address.
pub struct Launch {
    pub binary: &'static str,
    pub page: Option<&'static str>,
    pub args: Vec<String>,
}

/// The arguments that `exe` is started with: the given ones, then the raw map and the
/// camera flag for the raw map editor, else the map.
pub open spec fn launch_args(
    exe: Executable,
    args: Seq<Seq<char>>,
    map_path: Seq<char>,
    raw_map_path: Seq<char>,
    cam: Seq<char>,
) -> Seq<Seq<char>> {
    if exe == Executable::RawMapEditor {
        args.push(raw_map_path).push("--cam="@ + cam)
    } else {
        args.push(map_path)
    }
}

impl Executable {
    /// How to start this app in place of the current one, handing it `args` and the
    /// current map: `map_path` is the map's path, `raw_map_path` its raw map's, and `cam`
    /// the camera's position on it.
    pub fn replace_process(
        self,
        args: Vec<&str>,
        map_path: &str,
        raw_map_path: &str,
        cam: &str,
    ) -> (l: Launch)
        ensures
            l.binary@ == binary_name_of(self),
            match l.page {
                Some(p) => web_page_of(self) == Some(p@),
                None => web_page_of(self) is None,
            },
            l.args@.map_values(|a: String| a@) == launch_args(
                self,
                args@.map_values(|a: &str| a@),
                map_path@,
                raw_map_path@,
                cam@,
            ),
    {
        let mut out: Vec<String> = Vec::new();
        let mut i: usize = 0;
        while i < args.len()
            invariant
                i <= args.len(),
                out@.map_values(|a: String| a@) == args@.map_values(|a: &str| a@).take(i as int),
            decreases args.len() - i,
        {
            let ghost prev = out@.map_values(|a: String| a@);
            let a = owned(args[i]);
            out.push(a);
            assert(out@.map_values(|a: String| a@) =~= prev.push(args@[i as int]@));
            assert(args@.map_values(|a: &str| a@).take(i + 1) =~= args@.map_values(|a: &str| a@).take(i as int).push(args@[i as int]@));
            i = i + 1;
        }
        assert(args@.map_values(|a: &str| a@).take(args.len() as int) =~= args@.map_values(|a: &str| a@));
        let ghost before = out@.map_values(|a: String| a@);
        if self.takes_raw_map() {
            out.push(owned(raw_map_path));
            out.push(join2("--cam=", cam));
            assert(out@.map_values(|a: String| a@) =~= before.push(raw_map_path@).push("--cam="@ + cam@));
        } else {
            out.push(owned(map_path));
            assert(out@.map_values(|a: String| a@) =~= before.push(map_path@));
        }
        Launch { binary: self.binary_name(), page: self.web_page(), args: out }
    }
}

/// A button of the title screen: an entry of the menu, drawn solid in the primary style
/// or as an outline.
#[derive(Clone, Copy, Debug)]
pub struct MenuButton {
    pub entry: MenuEntry,
    pub solid_primary: bool,
}

/// `b` is the button of `a`'s entry, with its label and tooltip, in the primary style
/// exactly when `primary`.
pub open spec fn is_button_of(b: MenuButton, a: MenuAction, primary: bool) -> bool {
    is_entry_of(b.entry, a) && b.solid_primary == primary
}

/// The button of `action`'s entry, solid in the primary style or as an outline.
pub fn menu_button(action: MenuAction, primary: bool) -> (b: MenuButton)
    ensures
        is_button_of(b, action, primary),
{
    MenuButton { entry: menu_entry(action), solid_primary: primary }
}

/// The label of the button that leads to the credits.
pub open spec fn credits_label() -> Seq<char> {
    "Created by Dustin Carlino, Yuwen Li, & Michael Kirk"@
}

/// A title screen shared among all of the A/B Street apps, run from `current_exe`: its
/// main buttons (exploring a city, then opening a project and the beginner's help), the
/// "more tools" buttons in rows, and the credits button, labelled with the authors and
/// named "Credits".
pub struct TitleScreen {
    pub current_exe: Executable,
    pub main_buttons: Vec<MenuButton>,
    pub more_tool_buttons: Vec<Vec<MenuButton>>,
    pub credits_label: &'static str,
    pub credits_name: &'static str,
}

/// `t` is the title screen of the app `current_exe` in a window of `window_width` whole
/// pixels: one button per menu entry with its label and tooltip, only "Explore a city" in
/// the primary style; the "more tools" entries in the rows that the width allows; and the
/// credits button.
pub open spec fn is_title_screen(t: TitleScreen, current_exe: Executable, window_width: u64) -> bool {
    &&& t.current_exe == current_exe
    &&& t.main_buttons.len() == 3
    &&& is_button_of(t.main_buttons@[0], MenuAction::ExploreCity, true)
    &&& is_button_of(t.main_buttons@[1], MenuAction::OpenProject, false)
    &&& is_button_of(t.main_buttons@[2], MenuAction::BeginnerHelp, false)
    &&& t.more_tool_buttons.len() == rows_of(more_tools(), tools_per_row(window_width)).len()
    &&& forall|i: int|
        0 <= i < t.more_tool_buttons.len() ==> (#[trigger] t.more_tool_buttons@[i]).len() == rows_of(
            more_tools(),
            tools_per_row(window_width),
        )[i].len()
    &&& forall|i: int, j: int|
        0 <= i < t.more_tool_buttons.len() && 0 <= j < t.more_tool_buttons@[i].len() ==> is_button_of(
            #[trigger] t.more_tool_buttons@[i]@[j],
            rows_of(more_tools(), tools_per_row(window_width))[i][j],
            false,
        )
    &&& t.credits_label@ == credits_label()
    &&& t.credits_name@ == "Credits"@
}

/// What running an app from the title screen does.
#[derive(Clone, Copy, Debug, PartialEq, Eq, Structural)]
pub enum RunOutcome {
    /// Enter a state of the current app.
    EnterState,
    /// Replace the current process by the given app.
    ReplaceProcess(Executable),
}

/// What a click on the title screen does.
#[derive(Clone, Copy, Debug)]
pub enum TitleClick {
    /// Run an app, with the given flag or none.
    Run(Executable, Option<&'static str>),
    /// Open a page in the browser.
    OpenBrowser(&'static str),
    /// Show what A/B Street is about.
    ShowAbout,
}

/// The first action of the menu, in order, whose label is `x`.
pub open spec fn action_for_label(x: Seq<char>) -> Option<MenuAction> {
    first_action_labelled(x, 0)
}

/// The first action from position `from` of the menu on whose label is `x`.
pub open spec fn first_action_labelled(x: Seq<char>, from: nat) -> Option<MenuAction>
    decreases menu_order().len() - from,
{
    if from >= menu_order().len() {
        None
    } else if label_of(menu_order()[from as int]) == x {
        Some(menu_order()[from as int])
    } else {
        first_action_labelled(x, from + 1)
    }
}

/// The outcome of clicking the entry of `action`.
pub open spec fn click_of_action(action: MenuAction) -> TitleClick {
    match action {
        MenuAction::ExploreCity => TitleClick::Run(Executable::ABStreet, Some("--explore")),
        MenuAction::OpenProject => TitleClick::Run(Executable::ABStreet, Some("--open-project")),
        MenuAction::BeginnerHelp => TitleClick::Run(Executable::ABStreet, Some("--starter")),
        MenuAction::SimulationChallenges => TitleClick::Run(Executable::ABStreet, Some("--challenges")),
        MenuAction::CommunityProposals => TitleClick::Run(Executable::ABStreet, Some("--proposals")),
        MenuAction::Ungap => TitleClick::Run(Executable::ABStreet, Some("--ungap")),
        MenuAction::FifteenMinuteNeighbourhoods => TitleClick::Run(Executable::FifteenMin, None),
        MenuAction::LowTrafficNeighbourhoods => TitleClick::Run(Executable::LTN, None),
        MenuAction::ActDev => TitleClick::OpenBrowser("https://actdev.cyipt.bike"),
        MenuAction::AdvancedTools => TitleClick::Run(Executable::ABStreet, Some("--devtools")),
        MenuAction::About => TitleClick::ShowAbout,
    }
}

/// The buttons of the title screen besides the menu.
pub open spec fn is_other_button(x: Seq<char>) -> bool {
    x == "Credits"@ || x == "Download the new release"@
}

/// What a click on the button `x` does, when `x` is a button of the title screen.
pub open spec fn click_of(x: Seq<char>) -> TitleClick {
    match action_for_label(x) {
        Some(a) => click_of_action(a),
        None => if x == "Credits"@ {
            TitleClick::OpenBrowser("https://a-b-street.github.io/docs/project/team.html")
        } else {
            TitleClick::OpenBrowser("https://github.com/a-b-street/abstreet/releases")
        },
    }
}

/// What a click on the title screen amounts to: the app it runs, if any, and the flag or
/// page it passes, as strings.
pub open spec fn click_key(c: TitleClick) -> (Option<Executable>, Option<Seq<char>>) {
    match c {
        TitleClick::Run(e, f) => (Some(e), match f {
            Some(x) => Some(x@),
            None => None,
        }),
        TitleClick::OpenBrowser(u) => (None, Some(u@)),
        TitleClick::ShowAbout => (None, None),
    }
}

/// The menu in order: each action with its label, tooltip, section, and what clicking it
/// does.
pub open spec fn menu_table() -> Seq<
    (MenuAction, Seq<char>, Seq<char>, MenuSection, (Option<Executable>, Option<Seq<char>>)),
> {
    seq![
        (MenuAction::ExploreCity, "Explore a city"@, "Choose a real city, observe traffic, and test street changes"@, MenuSection::Primary, (Some(Executable::ABStreet), Some("--explore"@))),
        (MenuAction::OpenProject, "Open a project"@, "Open an existing street-change proposal"@, MenuSection::Secondary, (Some(Executable::ABStreet), Some("--open-project"@))),
        (MenuAction::BeginnerHelp, "New here?"@, "Learn the basic A/B Street workflow"@, MenuSection::Secondary, (Some(Executable::ABStreet), Some("--starter"@))),
        (MenuAction::SimulationChallenges, "Traffic simulation challenges"@, "Complete specific objectives in the traffic simulator"@, MenuSection::More, (Some(Executable::ABStreet), Some("--challenges"@))),
        (MenuAction::CommunityProposals, "Community proposals"@, "Try proposals for changing different cities"@, MenuSection::More, (Some(Executable::ABStreet), Some("--proposals"@))),
        (MenuAction::Ungap, "Ungap the Map"@, "Improve a city's bike network"@, MenuSection::More, (Some(Executable::ABStreet), Some("--ungap"@))),
        (MenuAction::FifteenMinuteNeighbourhoods, "15-minute neighbourhoods"@, "Explore what places residents can easily reach"@, MenuSection::More, (Some(Executable::FifteenMin), None)),
        (MenuAction::LowTrafficNeighbourhoods, "Low traffic neighbourhoods"@, "Reduce vehicle shortcuts through residential streets"@, MenuSection::More, (Some(Executable::LTN), None)),
        (MenuAction::ActDev, "ActDev"@, "Explore mobility patterns around new residential development"@, MenuSection::More, (None, Some("https://actdev.cyipt.bike"@))),
        (MenuAction::AdvancedTools, "Advanced tools"@, "Open specialist and developer tools"@, MenuSection::More, (Some(Executable::ABStreet), Some("--devtools"@))),
        (MenuAction::About, "About"@, "About A/B Street and its simulation assumptions"@, MenuSection::More, (None, None)),
    ]
}

/// The labels of the menu, spelled out far enough to tell them apart.
pub proof fn lemma_labels_spelled()
    ensures
        "Explore a city"@.len() == 14 && "Explore a city"@[0] == 'E',
        "Open a project"@.len() == 14 && "Open a project"@[0] == 'O',
        "New here?"@.len() == 9 && "New here?"@[0] == 'N',
        "Traffic simulation challenges"@.len() == 29 && "Traffic simulation challenges"@[0] == 'T',
        "Community proposals"@.len() == 19 && "Community proposals"@[0] == 'C',
        "Ungap the Map"@.len() == 13 && "Ungap the Map"@[0] == 'U',
        "15-minute neighbourhoods"@.len() == 24 && "15-minute neighbourhoods"@[0] == '1',
        "Low traffic neighbourhoods"@.len() == 26 && "Low traffic neighbourhoods"@[0] == 'L',
        "ActDev"@.len() == 6 && "ActDev"@[0] == 'A',
        "Advanced tools"@.len() == 14 && "Advanced tools"@[0] == 'A',
        "About"@.len() == 5 && "About"@[0] == 'A',
        "Credits"@.len() == 7,
        "Download the new release"@.len() == 24 && "Download the new release"@[0] == 'D',
{
    reveal_strlit("Explore a city");
    assert("Explore a city"@.len() == 14 && "Explore a city"@[0] == 'E');
    reveal_strlit("Open a project");
    assert("Open a project"@.len() == 14 && "Open a project"@[0] == 'O');
    reveal_strlit("New here?");
    assert("New here?"@.len() == 9 && "New here?"@[0] == 'N');
    reveal_strlit("Traffic simulation challenges");
    assert("Traffic simulation challenges"@.len() == 29 && "Traffic simulation challenges"@[0] == 'T');
    reveal_strlit("Community proposals");
    assert("Community proposals"@.len() == 19 && "Community proposals"@[0] == 'C');
    reveal_strlit("Ungap the Map");
    assert("Ungap the Map"@.len() == 13 && "Ungap the Map"@[0] == 'U');
    reveal_strlit("15-minute neighbourhoods");
    assert("15-minute neighbourhoods"@.len() == 24 && "15-minute neighbourhoods"@[0] == '1');
    reveal_strlit("Low traffic neighbourhoods");
    assert("Low traffic neighbourhoods"@.len() == 26 && "Low traffic neighbourhoods"@[0] == 'L');
    reveal_strlit("ActDev");
    assert("ActDev"@.len() == 6 && "ActDev"@[0] == 'A');
    reveal_strlit("Advanced tools");
    assert("Advanced tools"@.len() == 14 && "Advanced tools"@[0] == 'A');
    reveal_strlit("About");
    assert("About"@.len() == 5 && "About"@[0] == 'A');
    reveal_strlit("Credits");
    assert("Credits"@.len() == 7);
    reveal_strlit("Download the new release");
    assert("Download the new release"@.len() == 24 && "Download the new release"@[0] == 'D');
}

/// The title screen's menu lists, in this order, explore a city (the primary entry), open
/// a project and the beginner's help (secondary), then the simulation challenges, the
/// community proposals, Ungap the Map, 15-minute neighbourhoods, low traffic
/// neighbourhoods, ActDev, the advanced tools and About; each with its own label and
/// tooltip, and clicking its label runs A/B Street with the flag of its state, runs the
/// 15-minute or low-traffic app, opens the ActDev page, or shows About. No two entries do
/// the same thing.
pub proof fn lemma_menu_entries_do_what_they_say(a: MenuAction, b: MenuAction)
    ensures
        menu_order().len() == menu_table().len(),
        forall|i: int|
            0 <= i < menu_table().len() ==> {
                &&& #[trigger] menu_order()[i] == menu_table()[i].0
                &&& label_of(menu_table()[i].0) == menu_table()[i].1
                &&& tooltip_of(menu_table()[i].0) == menu_table()[i].2
                &&& section_of(menu_table()[i].0) == menu_table()[i].3
                &&& click_key(click_of(menu_table()[i].1)) == menu_table()[i].4
            },
        a != b ==> click_key(click_of_action(a)) != click_key(click_of_action(b)),
        click_key(click_of("Credits"@)) == (
            None::<Executable>,
            Some("https://a-b-street.github.io/docs/project/team.html"@),
        ),
        click_key(click_of("Download the new release"@)) == (
            None::<Executable>,
            Some("https://github.com/a-b-street/abstreet/releases"@),
        ),
{
    lemma_labels_spelled();
    reveal_with_fuel(first_action_labelled, 12);
    reveal_strlit("--explore");
    assert("--explore"@.len() == 9 && "--explore"@[2] == 'e' && "--explore"@[3] == 'x');
    reveal_strlit("--open-project");
    assert("--open-project"@.len() == 14 && "--open-project"@[2] == 'o' && "--open-project"@[3] == 'p');
    reveal_strlit("--starter");
    assert("--starter"@.len() == 9 && "--starter"@[2] == 's' && "--starter"@[3] == 't');
    reveal_strlit("--challenges");
    assert("--challenges"@.len() == 12 && "--challenges"@[2] == 'c' && "--challenges"@[3] == 'h');
    reveal_strlit("--proposals");
    assert("--proposals"@.len() == 11 && "--proposals"@[2] == 'p' && "--proposals"@[3] == 'r');
    reveal_strlit("--ungap");
    assert("--ungap"@.len() == 7 && "--ungap"@[2] == 'u' && "--ungap"@[3] == 'n');
    reveal_strlit("--devtools");
    assert("--devtools"@.len() == 10 && "--devtools"@[2] == 'd' && "--devtools"@[3] == 'e');
    reveal_strlit("https://actdev.cyipt.bike");
    assert("https://actdev.cyipt.bike"@.len() == 25);
    assert forall|i: int| 0 <= i < menu_table().len() implies {
        &&& #[trigger] menu_order()[i] == menu_table()[i].0
        &&& label_of(menu_table()[i].0) == menu_table()[i].1
        &&& tooltip_of(menu_table()[i].0) == menu_table()[i].2
        &&& section_of(menu_table()[i].0) == menu_table()[i].3
        &&& click_key(click_of(menu_table()[i].1)) == menu_table()[i].4
    } by {
        assert(action_for_label(menu_table()[i].1) == Some(menu_table()[i].0));
    }
}

impl TitleScreen {
    /// The title screen of the app `current_exe` in a window of `window_width` whole
    /// pixels: one button per menu entry with its label and tooltip, only "Explore a city"
    /// in the primary style; the "more tools" entries in the rows that the width allows;
    /// and the credits button.
    pub fn new_state(current_exe: Executable, window_width: u64) -> (t: Self)
        ensures
            is_title_screen(t, current_exe, window_width),
    {
        let mut main_buttons: Vec<MenuButton> = Vec::new();
        main_buttons.push(menu_button(MenuAction::ExploreCity, true));
        main_buttons.push(menu_button(MenuAction::OpenProject, false));
        main_buttons.push(menu_button(MenuAction::BeginnerHelp, false));
        let rows = more_tool_rows(window_width);
        let ghost want = rows_of(more_tools(), tools_per_row(window_width));
        assert(rows@.len() == want.len() && forall|k: int| 0 <= k < rows@.len() ==> #[trigger] rows@[k]@ == want[k]) by {
            assert forall|k: int| 0 <= k < rows@.len() implies #[trigger] rows@[k]@ == want[k] by {
                assert(rows@.map_values(|r: Vec<MenuAction>| r@)[k] == rows@[k]@);
            }
        }
        let mut more: Vec<Vec<MenuButton>> = Vec::new();
        let mut i: usize = 0;
        while i < rows.len()
            invariant
                i <= rows.len(),
                more.len() == i,
                forall|k: int|
                    0 <= k < i ==> (#[trigger] more@[k]).len() == rows@[k].len(),
                forall|k: int, j: int|
                    0 <= k < i && 0 <= j < more@[k].len() ==> is_button_of(
                        #[trigger] more@[k]@[j],
                        rows@[k]@[j],
                        false,
                    ),
            decreases rows.len() - i,
        {
            let row = &rows[i];
            let mut buttons: Vec<MenuButton> = Vec::new();
            let mut j: usize = 0;
            while j < row.len()
                invariant
                    j <= row.len(),
                    buttons.len() == j,
                    forall|m: int| 0 <= m < j ==> is_button_of(#[trigger] buttons@[m], row@[m], false),
                decreases row.len() - j,
            {
                buttons.push(menu_button(row[j], false));
                j = j + 1;
            }
            more.push(buttons);
            i = i + 1;
        }
        TitleScreen {
            current_exe,
            main_buttons,
            more_tool_buttons: more,
            credits_label: "Created by Dustin Carlino, Yuwen Li, & Michael Kirk",
            credits_name: "Credits",
        }
    }

    /// Running `exe` enters a state of the current app when it is the current app, and
    /// replaces the process otherwise.
    pub fn run(&self, exe: Executable) -> (r: RunOutcome)
        ensures
            r == if exe == self.current_exe {
                RunOutcome::EnterState
            } else {
                RunOutcome::ReplaceProcess(exe)
            },
    {
        if exe == self.current_exe {
            RunOutcome::EnterState
        } else {
            RunOutcome::ReplaceProcess(exe)
        }
    }

    /// What a click on the button labelled `x` does.
    pub fn on_click(&self, x: &str) -> (c: TitleClick)
        requires
            action_for_label(x@) is Some || is_other_button(x@),
        ensures
            c == click_of(x@),
    {
        let entries = main_menu_entries();
        let mut i: usize = 0;
        let mut action: Option<MenuAction> = None;
        while i < entries.len()
            invariant_except_break
                action is None,
                action_for_label(x@) == first_action_labelled(x@, i as nat),
            invariant
                i <= entries.len(),
                entries.len() == menu_order().len(),
                forall|k: int| 0 <= k < entries.len() ==> is_entry_of(#[trigger] entries@[k], menu_order()[k]),
            ensures
                action == action_for_label(x@),
            decreases entries.len() - i,
        {
            if str_eq(entries[i].label, x) {
                action = Some(entries[i].action);
                break;
            }
            i = i + 1;
        }
        match action {
            Some(MenuAction::ExploreCity) => TitleClick::Run(Executable::ABStreet, Some("--explore")),
            Some(MenuAction::OpenProject) => TitleClick::Run(Executable::ABStreet, Some("--open-project")),
            Some(MenuAction::BeginnerHelp) => TitleClick::Run(Executable::ABStreet, Some("--starter")),
            Some(MenuAction::SimulationChallenges) => TitleClick::Run(Executable::ABStreet, Some("--challenges")),
            Some(MenuAction::CommunityProposals) => TitleClick::Run(Executable::ABStreet, Some("--proposals")),
            Some(MenuAction::Ungap) => TitleClick::Run(Executable::ABStreet, Some("--ungap")),
            Some(MenuAction::FifteenMinuteNeighbourhoods) => TitleClick::Run(Executable::FifteenMin, None),
            Some(MenuAction::LowTrafficNeighbourhoods) => TitleClick::Run(Executable::LTN, None),
            Some(MenuAction::ActDev) => TitleClick::OpenBrowser("https://actdev.cyipt.bike"),
            Some(MenuAction::AdvancedTools) => TitleClick::Run(Executable::ABStreet, Some("--devtools")),
            Some(MenuAction::About) => TitleClick::ShowAbout,
            None => {
                if str_eq(x, "Credits") {
                    TitleClick::OpenBrowser("https://a-b-street.github.io/docs/project/team.html")
                } else {
                    TitleClick::OpenBrowser("https://github.com/a-b-street/abstreet/releases")
                }
            },
        }
    }
}

} // verus!
