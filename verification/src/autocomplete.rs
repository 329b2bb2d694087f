//! The autocomplete widget's search logic: which labels the menu lists for a query, and
//! which values a click on one of them chooses.
use vstd::prelude::*;
use crate::text;
use crate::grouping;
use crate::grouping::{group_by_key, sorted_unique};
use crate::text::{ascii_lower_chars, contains_chars, join2, owned, str_eq, strip_prefix};

verus! {

broadcast use vstd::seq_lib::group_seq_properties;

/// The views of a sequence of strings.
pub open spec fn string_views(v: Seq<String>) -> Seq<Seq<char>> {
    v.map_values(|s: String| s@)
}

/// The names of a list of choices.
pub open spec fn choice_names<T>(choices: Seq<(String, Vec<T>)>) -> Seq<Seq<char>> {
    choices.map_values(|c: (String, Vec<T>)| c.0@)
}

/// A name matches a query when the query, ASCII lower-cased, occurs in the name,
/// ASCII lower-cased.
pub open spec fn name_matches(name: Seq<char>, query: Seq<char>) -> bool {
    text::contains(text::ascii_lower(name), text::ascii_lower(query))
}

proof fn lemma_lower_is_idempotent(s: Seq<char>)
    ensures
        text::ascii_lower(text::ascii_lower(s)) == text::ascii_lower(s),
{
    assert forall|i: int| 0 <= i < s.len() implies text::lower_char(text::lower_char(s[i])) == text::lower_char(
        s[i],
    ) by {
        let c = s[i];
        if 'A' <= c <= 'Z' {
            assert((c as u32) + 32 >= 'a' as u32);
        }
    }
    assert(text::ascii_lower(text::ascii_lower(s)) =~= text::ascii_lower(s));
}

/// Matching ignores ASCII case, in the name and in the query alike, and a query that
/// occurs in a name as it is written always matches it.
pub proof fn lemma_matching_ignores_ascii_case(name: Seq<char>, query: Seq<char>)
    ensures
        name_matches(name, query) == name_matches(text::ascii_lower(name), query),
        name_matches(name, query) == name_matches(name, text::ascii_lower(query)),
        text::contains(name, query) ==> name_matches(name, query),
{
    lemma_lower_is_idempotent(name);
    lemma_lower_is_idempotent(query);
    if text::contains(name, query) {
        let i = choose|i: int|
            0 <= i <= name.len() - query.len() && #[trigger] name.subrange(i, i + query.len()) == query;
        assert(text::ascii_lower(name).subrange(i, i + query.len()) =~= text::ascii_lower(query));
    }
}

/// The names that match the query, in their order.
pub open spec fn matching_names(names: Seq<Seq<char>>, query: Seq<char>) -> Seq<Seq<char>> {
    names.filter(|n: Seq<char>| name_matches(n, query))
}

/// The label of the menu entry that stands for every match of the query.
pub open spec fn anything_matching_label(query: Seq<char>) -> Seq<char> {
    "anything matching \""@ + query + "\""@
}

/// The labels that the search collects before the final clean-up: the "anything matching"
/// label, then the matches in order, until the list holds `limit` labels. With a limit of
/// 0 it collects nothing.
pub open spec fn collected_labels(names: Seq<Seq<char>>, query: Seq<char>, limit: nat) -> Seq<
    Seq<char>,
> {
    let m = matching_names(names, query);
    let header = seq![anything_matching_label(query)];
    if limit == 0 {
        Seq::empty()
    } else if m.len() >= limit - 1 {
        header + m.take(limit - 1)
    } else {
        header + m
    }
}

/// What the menu lists for a query: nothing for an empty query when empty queries show
/// no results; else the collected labels, without the "anything matching" label when
/// exactly one name was collected.
pub open spec fn menu_labels(
    names: Seq<Seq<char>>,
    query: Seq<char>,
    limit: nat,
    show_results_when_empty: bool,
) -> Seq<Seq<char>> {
    if query.len() == 0 && !show_results_when_empty {
        Seq::empty()
    } else {
        let l = collected_labels(names, query, limit);
        if l.len() == 2 {
            l.drop_first()
        } else {
            l
        }
    }
}

proof fn lemma_matching_step(names: Seq<Seq<char>>, query: Seq<char>, i: int)
    requires
        0 <= i < names.len(),
    ensures
        matching_names(names.take(i + 1), query) == if name_matches(names[i], query) {
            matching_names(names.take(i), query).push(names[i])
        } else {
            matching_names(names.take(i), query)
        },
{
    reveal(Seq::filter);
    assert(names.take(i + 1).drop_last() =~= names.take(i));
}

proof fn lemma_matching_prefix(names: Seq<Seq<char>>, query: Seq<char>, i: int)
    requires
        0 <= i <= names.len(),
    ensures
        matching_names(names, query).take(matching_names(names.take(i), query).len() as int)
            == matching_names(names.take(i), query),
        matching_names(names, query).len() >= matching_names(names.take(i), query).len(),
{
    let pred = |n: Seq<char>| name_matches(n, query);
    assert(names =~= names.take(i) + names.skip(i));
    Seq::filter_distributes_over_add(names.take(i), names.skip(i), pred);
    assert(matching_names(names, query) =~= matching_names(names.take(i), query)
        + names.skip(i).filter(pred));
    assert(matching_names(names, query).take(matching_names(names.take(i), query).len() as int)
        =~= matching_names(names.take(i), query));
}

/// The menu lists at most `limit` labels, for every query and every list of choices.
pub proof fn lemma_menu_respects_limit(
    names: Seq<Seq<char>>,
    query: Seq<char>,
    limit: nat,
    show_results_when_empty: bool,
)
    ensures
        menu_labels(names, query, limit, show_results_when_empty).len() <= limit,
{
}

/// A compact box (one that shows no results for an empty query) lists nothing while the
/// query is empty.
pub proof fn lemma_compact_hides_empty_query(names: Seq<Seq<char>>, limit: nat)
    ensures
        menu_labels(names, Seq::empty(), limit, false) == Seq::<Seq<char>>::empty(),
{
}

/// When exactly one name matches and the limit leaves room for it (two or more), the menu
/// lists that name alone, without the "anything matching" entry.
pub proof fn lemma_single_match_listed_alone(
    names: Seq<Seq<char>>,
    query: Seq<char>,
    limit: nat,
    show_results_when_empty: bool,
)
    requires
        matching_names(names, query).len() == 1,
        limit >= 2,
        query.len() > 0 || show_results_when_empty,
    ensures
        menu_labels(names, query, limit, show_results_when_empty) == seq![matching_names(names, query)[0]],
{
    let m = matching_names(names, query);
    let header = seq![anything_matching_label(query)];
    if m.len() >= limit - 1 {
        assert(m.take(limit - 1) =~= m);
    }
    assert((header + m).drop_first() =~= seq![m[0]]);
}

/// The labels that the menu lists for `current_line`, at most `num_search_results` of the
/// collected ones (see `menu_labels`).
pub fn matching_choice_labels<T>(
    choices: &Vec<(String, Vec<T>)>,
    current_line: &str,
    num_search_results: usize,
    show_results_when_empty: bool,
) -> (labels: Vec<String>)
    ensures
        string_views(labels@) == menu_labels(
            choice_names(choices@),
            current_line@,
            num_search_results as nat,
            show_results_when_empty,
        ),
{
    let ghost names = choice_names(choices@);
    let ghost query = current_line@;
    if current_line.is_empty() && !show_results_when_empty {
        let empty: Vec<String> = Vec::new();
        assert(string_views(empty@) =~= Seq::<Seq<char>>::empty());
        return empty;
    }
    if num_search_results == 0 {
        let empty: Vec<String> = Vec::new();
        assert(string_views(empty@) =~= Seq::<Seq<char>>::empty());
        return empty;
    }
    let mut header = join2("anything matching \"", current_line);
    header.append("\"");
    let mut labels: Vec<String> = Vec::new();
    labels.push(header);
    let q = ascii_lower_chars(current_line);
    assert(string_views(labels@) =~= seq![anything_matching_label(query)] + matching_names(
        names.take(0),
        query,
    ));
    let mut i: usize = 0;
    while i < choices.len() && labels.len() < num_search_results
        invariant
            i <= choices.len(),
            names == choice_names(choices@),
            q@ == text::ascii_lower(query),
            num_search_results >= 1,
            string_views(labels@) == seq![anything_matching_label(query)] + matching_names(
                names.take(i as int),
                query,
            ),
            labels.len() <= num_search_results,
        decreases choices.len() - i,
    {
        let ghost before = string_views(labels@);
        let lowered = ascii_lower_chars(choices[i].0.as_str());
        proof {
            lemma_matching_step(names, query, i as int);
        }
        if contains_chars(&lowered, &q) {
            labels.push(choices[i].0.clone());
            assert(string_views(labels@) =~= before.push(names[i as int]));
        } else {
            assert(string_views(labels@) =~= before);
        }
        assert(string_views(labels@) =~= seq![anything_matching_label(query)] + matching_names(
            names.take(i + 1),
            query,
        ));
        i = i + 1;
    }
    proof {
        let m = matching_names(names, query);
        let mi = matching_names(names.take(i as int), query);
        lemma_matching_prefix(names, query, i as int);
        assert(string_views(labels@).len() == labels@.len());
        if labels.len() >= num_search_results {
            assert(mi.len() == num_search_results - 1);
            assert(m.take(num_search_results - 1) =~= mi);
        } else {
            assert(names.take(i as int) =~= names);
            if m.len() >= num_search_results - 1 {
                assert(m.take(num_search_results - 1) =~= m);
            }
        }
        assert(string_views(labels@) == collected_labels(names, query, num_search_results as nat));
    }
    if labels.len() == 2 {
        let ghost before = string_views(labels@);
        labels.remove(0);
        assert(string_views(labels@) =~= before.drop_first());
    }
    labels
}

/// `choices` lists the raw (name, value) pairs as a `MultiMap` from names to sets of values
/// would: each name once, in ascending order, with its distinct values in ascending order.
pub open spec fn is_choice_list(raw: Seq<(String, String)>, choices: Seq<(String, Vec<String>)>) -> bool {
    &&& grouping::keys_ascending(choices)
    &&& forall|i: int|
        0 <= i < choices.len() ==> {
            &&& grouping::strictly_ascending(grouping::views((#[trigger] choices[i]).1@))
            &&& grouping::views(choices[i].1@).to_set() == grouping::views(
                grouping::values_with_key(raw, choices[i].0@),
            ).to_set()
            &&& choices[i].1.len() > 0
        }
    &&& forall|j: int| 0 <= j < raw.len() ==> grouping::has_group(choices, (#[trigger] raw[j]).0@)
}

/// The values of every choice whose name matches the query, choice after choice.
pub open spec fn values_of_matches(choices: Seq<(String, Vec<String>)>, query: Seq<char>) -> Seq<
    Seq<char>,
>
    decreases choices.len(),
{
    if choices.len() == 0 {
        Seq::empty()
    } else {
        values_of_matches(choices.drop_last(), query) + if name_matches(choices.last().0@, query) {
            grouping::views(choices.last().1@)
        } else {
            Seq::empty()
        }
    }
}

/// `i` is the first choice named `name`.
pub open spec fn first_named(choices: Seq<(String, Vec<String>)>, name: Seq<char>, i: int) -> bool {
    &&& 0 <= i < choices.len()
    &&& choices[i].0@ == name
    &&& forall|j: int| 0 <= j < i ==> (#[trigger] choices[j]).0@ != name
}

/// Some choice is named `name`.
pub open spec fn has_choice_named(choices: Seq<(String, Vec<String>)>, name: Seq<char>) -> bool {
    exists|i: int| 0 <= i < choices.len() && #[trigger] choices[i].0@ == name
}

/// A search box over named choices. If several names map to the same value, all the
/// values of the chosen names are returned.
pub struct Autocomplete {
    choices: Vec<(String, Vec<String>)>,
    num_search_results: usize,
    textbox_chars: usize,
    current_line: String,
    chosen_values: Option<Vec<String>>,
    show_results_when_empty: bool,
    menu: Vec<String>,
}

impl Autocomplete {
    /// The choices: names with their values.
    pub closed spec fn choices_view(&self) -> Seq<(String, Vec<String>)> {
        self.choices@
    }

    /// How many labels the menu lists at most.
    pub closed spec fn limit(&self) -> nat {
        self.num_search_results as nat
    }

    /// The width of the text box, in characters.
    pub closed spec fn textbox_width(&self) -> nat {
        self.textbox_chars as nat
    }

    /// What the text box holds.
    pub closed spec fn line_view(&self) -> Seq<char> {
        self.current_line@
    }

    /// The values chosen and not yet taken.
    pub closed spec fn chosen_view(&self) -> Option<Seq<Seq<char>>> {
        match self.chosen_values {
            Some(v) => Some(grouping::views(v@)),
            None => None,
        }
    }

    /// Whether an empty query lists results.
    pub closed spec fn shows_results_when_empty(&self) -> bool {
        self.show_results_when_empty
    }

    /// The labels that the menu lists.
    pub closed spec fn menu_view(&self) -> Seq<Seq<char>> {
        grouping::views(self.menu@)
    }

    /// The menu lists what the search gives for the current line.
    pub open spec fn menu_is_current(&self) -> bool {
        self.menu_view() == menu_labels(
            choice_names(self.choices_view()),
            self.line_view(),
            self.limit(),
            self.shows_results_when_empty(),
        )
    }

    /// An autocomplete box that lists results for an empty query too, with a text box of
    /// 50 characters.
    pub fn new_widget(raw_choices: Vec<(String, String)>, num_search_results: usize) -> (a: Self)
        ensures
            is_choice_list(raw_choices@, a.choices_view()),
            a.limit() == num_search_results,
            a.textbox_width() == 50,
            a.shows_results_when_empty(),
            a.line_view() == Seq::<char>::empty(),
            a.chosen_view() is None,
            a.menu_is_current(),
    {
        Self::new_widget_with_options(raw_choices, num_search_results, 50, true)
    }

    /// An autocomplete box that lists nothing for an empty query, with a text box of
    /// `textbox_chars` characters.
    pub fn new_compact_widget(
        raw_choices: Vec<(String, String)>,
        num_search_results: usize,
        textbox_chars: usize,
    ) -> (a: Self)
        ensures
            is_choice_list(raw_choices@, a.choices_view()),
            a.limit() == num_search_results,
            a.textbox_width() == textbox_chars,
            !a.shows_results_when_empty(),
            a.line_view() == Seq::<char>::empty(),
            a.chosen_view() is None,
            a.menu_is_current(),
    {
        Self::new_widget_with_options(raw_choices, num_search_results, textbox_chars, false)
    }

    fn new_widget_with_options(
        raw_choices: Vec<(String, String)>,
        num_search_results: usize,
        textbox_chars: usize,
        show_results_when_empty: bool,
    ) -> (a: Self)
        ensures
            is_choice_list(raw_choices@, a.choices_view()),
            a.limit() == num_search_results,
            a.textbox_width() == textbox_chars,
            a.shows_results_when_empty() == show_results_when_empty,
            a.line_view() == Seq::<char>::empty(),
            a.chosen_view() is None,
            a.menu_is_current(),
    {
        let ghost raw = raw_choices@;
        let grouped = group_by_key(raw_choices);
        let mut rest = grouped;
        let ghost g = rest@;
        let mut choices: Vec<(String, Vec<String>)> = Vec::new();
        let n = rest.len();
        let mut i: usize = 0;
        assert(rest@ =~= g.skip(0));
        while i < n
            invariant
                n == g.len(),
                i <= n,
                rest@ == g.skip(i as int),
                grouping::is_grouping(raw, g),
                choices.len() == i,
                forall|j: int| 0 <= j < i ==> (#[trigger] choices@[j]).0@ == g[j].0@,
                forall|j: int|
                    0 <= j < i ==> {
                        &&& grouping::strictly_ascending(grouping::views((#[trigger] choices@[j]).1@))
                        &&& grouping::views(choices@[j].1@).to_set() == grouping::views(
                            grouping::values_with_key(raw, choices@[j].0@),
                        ).to_set()
                        &&& choices@[j].1.len() > 0
                    },
            decreases n - i,
        {
            let ghost old_rest = rest@;
            let (name, values) = rest.remove(0);
            assert(rest@ =~= g.skip(i + 1));
            assert(old_rest[0] == g[i as int]);
            let ghost vals = values@;
            assert(vals.len() > 0);
            let distinct = sorted_unique(values);
            proof {
                assert(grouping::views(vals).to_set().contains(grouping::views(vals)[0]));
                assert(grouping::views(distinct@).to_set().contains(grouping::views(vals)[0]));
                if distinct.len() == 0 {
                    assert(grouping::views(distinct@).to_set() =~= Set::empty());
                }
            }
            choices.push((name, distinct));
            i = i + 1;
        }
        proof {
            assert forall|a: int, b: int| 0 <= a < b < choices.len() implies text::seq_lt(
                #[trigger] choices@[a].0@,
                #[trigger] choices@[b].0@,
            ) by {
                assert(text::seq_lt(g[a].0@, g[b].0@));
            }
            assert forall|j: int| 0 <= j < raw.len() implies grouping::has_group(
                choices@,
                (#[trigger] raw[j]).0@,
            ) by {
                let k = choose|k: int| 0 <= k < g.len() && #[trigger] g[k].0@ == raw[j].0@;
                assert(choices@[k].0@ == raw[j].0@);
            }
        }
        let current_line = String::new();
        let menu = matching_choice_labels(
            &choices,
            current_line.as_str(),
            num_search_results,
            show_results_when_empty,
        );
        Autocomplete {
            choices,
            num_search_results,
            textbox_chars,
            current_line,
            chosen_values: None,
            show_results_when_empty,
            menu,
        }
    }

    /// Hands out the chosen values, if any, and forgets them.
    pub fn take_final_value(&mut self) -> (r: Option<Vec<String>>)
        ensures
            match r {
                Some(v) => old(self).chosen_view() == Some(grouping::views(v@)),
                None => old(self).chosen_view() is None,
            },
            final(self).chosen_view() is None,
            final(self).choices_view() == old(self).choices_view(),
            final(self).limit() == old(self).limit(),
            final(self).textbox_width() == old(self).textbox_width(),
            final(self).line_view() == old(self).line_view(),
            final(self).shows_results_when_empty() == old(self).shows_results_when_empty(),
            final(self).menu_view() == old(self).menu_view(),
    {
        self.chosen_values.take()
    }

    /// Lists in the menu what the search gives for the current line.
    fn recalc_menu(&mut self)
        ensures
            final(self).menu_is_current(),
            final(self).chosen_view() == old(self).chosen_view(),
            final(self).choices_view() == old(self).choices_view(),
            final(self).limit() == old(self).limit(),
            final(self).textbox_width() == old(self).textbox_width(),
            final(self).line_view() == old(self).line_view(),
            final(self).shows_results_when_empty() == old(self).shows_results_when_empty(),
    {
        self.menu = matching_choice_labels(
            &self.choices,
            self.current_line.as_str(),
            self.num_search_results,
            self.show_results_when_empty,
        );
    }

    /// The text box now holds `line`. When that differs from what it held, the search
    /// runs again and the result is `true` (the layout must be redone).
    pub fn line_changed(&mut self, line: &str) -> (changed: bool)
        ensures
            changed == (line@ != old(self).line_view()),
            final(self).line_view() == line@,
            changed ==> final(self).menu_is_current(),
            !changed ==> final(self).menu_view() == old(self).menu_view(),
            final(self).chosen_view() == old(self).chosen_view(),
            final(self).choices_view() == old(self).choices_view(),
            final(self).limit() == old(self).limit(),
            final(self).textbox_width() == old(self).textbox_width(),
            final(self).shows_results_when_empty() == old(self).shows_results_when_empty(),
    {
        if str_eq(line, self.current_line.as_str()) {
            return false;
        }
        self.current_line = owned(line);
        self.recalc_menu();
        true
    }

    /// A click on the menu entry `choice`. The "anything matching" entry chooses the
    /// values of every name that matches the current line; any other entry chooses the
    /// values of the name it shows.
    pub fn menu_clicked(&mut self, choice: &str)
        requires
            text::has_prefix(choice@, "anything matching"@) || has_choice_named(
                old(self).choices_view(),
                choice@,
            ),
        ensures
            text::has_prefix(choice@, "anything matching"@) ==> final(self).chosen_view() == Some(
                values_of_matches(old(self).choices_view(), old(self).line_view()),
            ),
            !text::has_prefix(choice@, "anything matching"@) ==> exists|i: int|
                first_named(old(self).choices_view(), choice@, i) && final(self).chosen_view()
                    == Some(grouping::views(old(self).choices_view()[i].1@)),
            final(self).choices_view() == old(self).choices_view(),
            final(self).limit() == old(self).limit(),
            final(self).textbox_width() == old(self).textbox_width(),
            final(self).line_view() == old(self).line_view(),
            final(self).shows_results_when_empty() == old(self).shows_results_when_empty(),
            final(self).menu_view() == old(self).menu_view(),
    {
        if strip_prefix(choice, "anything matching").is_some() {
            let q = ascii_lower_chars(self.current_line.as_str());
            let mut matches: Vec<String> = Vec::new();
            let mut i: usize = 0;
            while i < self.choices.len()
                invariant
                    i <= self.choices.len(),
                    *self == *old(self),
                    q@ == text::ascii_lower(self.current_line@),
                    grouping::views(matches@) == values_of_matches(
                        self.choices@.take(i as int),
                        self.current_line@,
                    ),
                decreases self.choices.len() - i,
            {
                let lowered = ascii_lower_chars(self.choices[i].0.as_str());
                assert(self.choices@.take(i + 1).drop_last() =~= self.choices@.take(i as int));
                if contains_chars(&lowered, &q) {
                    let vals = &self.choices[i].1;
                    let mut k: usize = 0;
                    let ghost before = grouping::views(matches@);
                    while k < vals.len()
                        invariant
                            k <= vals.len(),
                            grouping::views(matches@) == before + grouping::views(vals@).take(k as int),
                        decreases vals.len() - k,
                    {
                        let ghost mv = grouping::views(matches@);
                        let x = vals[k].clone();
                        matches.push(x);
                        assert(grouping::views(matches@) =~= mv.push(vals@[k as int]@));
                        assert(grouping::views(vals@).take(k + 1) =~= grouping::views(vals@).take(k as int).push(vals@[k as int]@));
                        assert(grouping::views(matches@) =~= before + grouping::views(vals@).take(k + 1));
                        k = k + 1;
                    }
                    assert(grouping::views(vals@).take(vals.len() as int) =~= grouping::views(vals@));
                } else {
                    assert(grouping::views(matches@) =~= values_of_matches(self.choices@.take(i + 1), self.current_line@));
                }
                i = i + 1;
            }
            assert(self.choices@.take(self.choices.len() as int) =~= self.choices@);
            self.chosen_values = Some(matches);
        } else {
            let mut i: usize = 0;
            while i < self.choices.len()
                invariant
                    i <= self.choices.len(),
                    *self == *old(self),
                    !text::has_prefix(choice@, "anything matching"@),
                    has_choice_named(self.choices@, choice@),
                    forall|j: int| 0 <= j < i ==> (#[trigger] self.choices@[j]).0@ != choice@,
                decreases self.choices.len() - i,
            {
                if str_eq(self.choices[i].0.as_str(), choice) {
                    let vals = self.choices[i].1.clone();
                    assert(vals@ =~= self.choices@[i as int].1@);
                    assert(first_named(self.choices@, choice@, i as int));
                    self.chosen_values = Some(vals);
                    assert(self.chosen_view() == Some(grouping::views(old(self).choices_view()[i as int].1@)));
                    assert(first_named(old(self).choices_view(), choice@, i as int));
                    return;
                }
                i = i + 1;
            }
            assert(false);
        }
    }

    /// The labels the menu lists.
    pub fn menu_labels(&self) -> (labels: &Vec<String>)
        ensures
            grouping::views(labels@) == self.menu_view(),
    {
        &self.menu
    }

    /// The width of the text box, in characters.
    pub fn textbox_chars(&self) -> (n: usize)
        ensures
            n == self.textbox_width(),
    {
        self.textbox_chars
    }
}

} // verus!
