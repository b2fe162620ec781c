use vstd::prelude::*;

use crate::text::{
    ascii_lowercase, ascii_uppercase, clone_opt_string, contains_text, is_ascii_text,
    lemma_blank_trims_to_empty, lemma_contains_transitive, lemma_lower_of_upper,
    lemma_trimmed_ascii, lemma_trimmed_idempotent, lemma_trimmed_uppercase, lemma_uppercase_ascii,
    is_white_space, lowercase, opt_string_view, text_contains, to_lowercase, trim, trimmed,
};

verus! {

/// What the launcher's search reads of an installed application.
pub struct AppEntry {
    /// A number by which the caller finds the application again.
    pub id: usize,
    /// The name shown to the user.
    pub display_name: String,
    /// The description, if the application has one.
    pub description: Option<String>,
    /// The application's name.
    pub name: String,
    /// The command line, if it has one that is valid UTF-8.
    pub commandline: Option<String>,
    /// Whether the application should be shown in menus.
    pub should_show: bool,
}

/// An application entry with its texts as character sequences.
pub struct AppModel {
    pub id: usize,
    pub display_name: Seq<char>,
    pub description: Option<Seq<char>>,
    pub name: Seq<char>,
    pub commandline: Option<Seq<char>>,
    pub should_show: bool,
}

impl View for AppEntry {
    type V = AppModel;

    open spec fn view(&self) -> AppModel {
        AppModel {
            id: self.id,
            display_name: self.display_name@,
            description: opt_string_view(self.description),
            name: self.name@,
            commandline: opt_string_view(self.commandline),
            should_show: self.should_show,
        }
    }
}

impl Clone for AppEntry {
    fn clone(&self) -> (r: Self)
        ensures
            r@ == self@,
    {
        AppEntry {
            id: self.id,
            display_name: self.display_name.clone(),
            description: clone_opt_string(&self.description),
            name: self.name.clone(),
            commandline: clone_opt_string(&self.commandline),
            should_show: self.should_show,
        }
    }
}

/// The views of a sequence of application entries.
pub open spec fn apps_view(apps: Seq<AppEntry>) -> Seq<AppModel> {
    apps.map_values(|a: AppEntry| a@)
}

/// Whether an optional text holds `q`; an absent text holds nothing.
pub open spec fn opt_text_contains(o: Option<Seq<char>>, q: Seq<char>) -> bool {
    match o {
        Some(t) => text_contains(t, q),
        None => false,
    }
}

/// The lower-case form of an optional text.
pub open spec fn opt_lowercase(o: Option<Seq<char>>) -> Option<Seq<char>> {
    match o {
        Some(t) => Some(lowercase(t)),
        None => None,
    }
}

/// The text searched for: the query trimmed of surrounding white space, in lower case.
pub open spec fn normalized_query(query: Seq<char>) -> Seq<char> {
    lowercase(trimmed(query))
}

/// Whether an application is listed for the normalized query `q`: it must be one
/// to show, and `q` must occur in the lower-case form of its display name,
/// description, name or command line.
pub open spec fn app_matches(a: AppModel, q: Seq<char>) -> bool {
    &&& a.should_show
    &&& {
        ||| text_contains(lowercase(a.display_name), q)
        ||| opt_text_contains(opt_lowercase(a.description), q)
        ||| text_contains(lowercase(a.name), q)
        ||| opt_text_contains(opt_lowercase(a.commandline), q)
    }
}

/// The applications listed for the normalized query `q`, in the order given.
pub open spec fn matching_apps(apps: Seq<AppModel>, q: Seq<char>) -> Seq<AppModel>
    decreases apps.len(),
{
    if apps.len() == 0 {
        seq![]
    } else {
        let prev = matching_apps(apps.drop_last(), q);
        if app_matches(apps.last(), q) {
            prev.push(apps.last())
        } else {
            prev
        }
    }
}

fn lowercase_opt(o: &Option<String>) -> (r: Option<String>)
    ensures
        opt_string_view(r) == opt_lowercase(opt_string_view(*o)),
{
    match o {
        Some(s) => Some(to_lowercase(s.as_str())),
        None => None,
    }
}

fn opt_contains_text(o: &Option<String>, query: &str) -> (b: bool)
    ensures
        b == opt_text_contains(opt_string_view(*o), query@),
{
    match o {
        Some(s) => contains_text(s.as_str(), query),
        None => false,
    }
}

/// Whether `query` occurs in any of the given (already lower-cased) texts of an
/// application: display name, description, name or command line.
pub fn matches_query(
    display_name: &str,
    description: &Option<String>,
    name: &str,
    commandline: &Option<String>,
    query: &str,
) -> (b: bool)
    ensures
        b == (text_contains(display_name@, query@) || opt_text_contains(
            opt_string_view(*description),
            query@,
        ) || text_contains(name@, query@) || opt_text_contains(
            opt_string_view(*commandline),
            query@,
        )),
{
    let display_name_matches = contains_text(display_name, query);
    let desc_matches = opt_contains_text(description, query);
    let name_matches = contains_text(name, query);
    let executable_matches = opt_contains_text(commandline, query);
    display_name_matches || desc_matches || name_matches || executable_matches
}

/// The applications to list for `search_query`, in the order given: those to
/// show whose display name, description, name or command line contains the query
/// (trimmed and compared in lower case).
pub fn get_app_list(all_apps: Vec<AppEntry>, search_query: &str) -> (r: Vec<AppEntry>)
    ensures
        apps_view(r@) == matching_apps(apps_view(all_apps@), normalized_query(search_query@)),
        apps_view(r@) == matching_apps(apps_view(all_apps@), lowercase(trimmed(search_query@))),
        is_ascii_text(trimmed(search_query@)) ==> apps_view(r@) == matching_apps(
            apps_view(all_apps@),
            ascii_lowercase(trimmed(search_query@)),
        ),
{
    let query = to_lowercase(trim(search_query));
    let ghost q = normalized_query(search_query@);
    let ghost all = apps_view(all_apps@);
    let mut matching_files: Vec<AppEntry> = Vec::new();
    let n = all_apps.len();
    let mut i: usize = 0;
    while i < n
        invariant
            n == all_apps@.len(),
            all == apps_view(all_apps@),
            query@ == q,
            i <= n,
            apps_view(matching_files@) == matching_apps(all.take(i as int), q),
        decreases n - i,
    {
        let app = &all_apps[i];
        proof {
            assert(all.take(i + 1).drop_last() =~= all.take(i as int));
            assert(all.take(i + 1).last() == app@);
        }
        if app.should_show {
            let display_name = to_lowercase(app.display_name.as_str());
            let description = lowercase_opt(&app.description);
            let name = to_lowercase(app.name.as_str());
            let commandline = lowercase_opt(&app.commandline);
            if matches_query(
                display_name.as_str(),
                &description,
                name.as_str(),
                &commandline,
                query.as_str(),
            ) {
                let ghost before = matching_files@;
                matching_files.push(app.clone());
                assert(apps_view(matching_files@) =~= apps_view(before).push(app@));
            }
        }
        i = i + 1;
    }
    assert(all.take(n as int) =~= all);
    matching_files
}

/// The application that Enter in the search box launches: the first one listed
/// for `search_query`, if any is listed.
pub fn app_to_launch(all_apps: Vec<AppEntry>, search_query: &str) -> (r: Option<AppEntry>)
    ensures
        ({
            let listed = matching_apps(apps_view(all_apps@), normalized_query(search_query@));
            match r {
                Some(a) => listed.len() > 0 && a@ == listed[0],
                None => listed.len() == 0,
            }
        }),
{
    let apps = get_app_list(all_apps, search_query);
    if apps.len() > 0 {
        Some(apps[0].clone())
    } else {
        None
    }
}

proof fn lemma_matching_contains(apps: Seq<AppModel>, q: Seq<char>, a: AppModel)
    ensures
        matching_apps(apps, q).contains(a) <==> (apps.contains(a) && app_matches(a, q)),
    decreases apps.len(),
{
    if apps.len() > 0 {
        let init = apps.drop_last();
        let prev = matching_apps(init, q);
        lemma_matching_contains(init, q, a);
        assert(apps =~= init.push(apps.last()));
        assert(apps.contains(a) <==> (init.contains(a) || a == apps.last())) by {
            if apps.contains(a) {
                let k = choose|k: int| 0 <= k < apps.len() && apps[k] == a;
                if k < init.len() {
                    assert(init[k] == a);
                }
            }
            if init.contains(a) {
                let k = choose|k: int| 0 <= k < init.len() && init[k] == a;
                assert(apps[k] == a);
            }
            if a == apps.last() {
                assert(apps[apps.len() - 1] == a);
            }
        }
        if app_matches(apps.last(), q) {
            let cur = prev.push(apps.last());
            assert(cur.contains(a) <==> (prev.contains(a) || a == apps.last())) by {
                if cur.contains(a) {
                    let k = choose|k: int| 0 <= k < cur.len() && cur[k] == a;
                    if k < prev.len() {
                        assert(prev[k] == a);
                    }
                }
                if prev.contains(a) {
                    let k = choose|k: int| 0 <= k < prev.len() && prev[k] == a;
                    assert(cur[k] == a);
                }
                if a == apps.last() {
                    assert(cur[prev.len() as int] == a);
                }
            }
        }
    }
}

/// An application is listed for a query exactly when it is among the
/// applications, it is one to show, and the full lower-case form of the trimmed
/// query (the same lower-casing as that of the application's texts, for any
/// characters) occurs in the lower-case form of its display name, description,
/// name or command line.
pub proof fn lemma_listed_exactly_when_matching(apps: Seq<AppModel>, query: Seq<char>, a: AppModel)
    ensures
        matching_apps(apps, normalized_query(query)).contains(a) <==> {
            &&& apps.contains(a)
            &&& a.should_show
            &&& {
                ||| text_contains(lowercase(a.display_name), lowercase(trimmed(query)))
                ||| (a.description matches Some(d) && text_contains(lowercase(d), lowercase(trimmed(query))))
                ||| text_contains(lowercase(a.name), lowercase(trimmed(query)))
                ||| (a.commandline matches Some(c) && text_contains(lowercase(c), lowercase(trimmed(query))))
            }
        },
{
    lemma_matching_contains(apps, normalized_query(query), a);
}

/// The search lists exactly the applications that match, in the order given:
/// it is the filter of the application list by `app_matches`. In particular every
/// listed application is one to show and no more are listed than there are.
pub proof fn lemma_results_are_filter(apps: Seq<AppModel>, q: Seq<char>)
    ensures
        matching_apps(apps, q) == apps.filter(|a: AppModel| app_matches(a, q)),
        forall|k: int|
            0 <= k < matching_apps(apps, q).len() ==> #[trigger] matching_apps(apps, q)[k].should_show,
        matching_apps(apps, q).len() <= apps.len(),
{
    let pred = |a: AppModel| app_matches(a, q);
    lemma_matching_is_filter(apps, q, pred);
    apps.lemma_filter_len(pred);
    assert forall|k: int| 0 <= k < matching_apps(apps, q).len() implies #[trigger] matching_apps(
        apps,
        q,
    )[k].should_show by {
        broadcast use vstd::seq_lib::group_filter_ensures;
        assert(pred(apps.filter(pred)[k]));
    }
}

proof fn lemma_matching_is_filter(apps: Seq<AppModel>, q: Seq<char>, pred: spec_fn(AppModel) -> bool)
    requires
        forall|a: AppModel| #[trigger] pred(a) == app_matches(a, q),
    ensures
        matching_apps(apps, q) == apps.filter(pred),
    decreases apps.len(),
{
    reveal_with_fuel(Seq::filter, 1);
    if apps.len() > 0 {
        lemma_matching_is_filter(apps.drop_last(), q, pred);
        assert(pred(apps.last()) == app_matches(apps.last(), q));
    } else {
        assert(apps.filter(pred) =~= Seq::<AppModel>::empty());
    }
}

/// The empty text occurs in every text.
pub proof fn lemma_empty_text_contained(t: Seq<char>)
    ensures
        text_contains(t, Seq::<char>::empty()),
{
    let e = Seq::<char>::empty();
    assert(t.subrange(0, 0 + e.len() as int) =~= e);
}

/// The empty query lists every application to show, in order.
pub proof fn lemma_empty_query_lists_shown(apps: Seq<AppModel>, q: Seq<char>)
    requires
        q.len() == 0,
    ensures
        matching_apps(apps, q) == apps.filter(|a: AppModel| a.should_show),
{
    assert(q =~= Seq::<char>::empty());
    let pred = |a: AppModel| a.should_show;
    assert forall|a: AppModel| #[trigger] pred(a) == app_matches(a, q) by {
        lemma_empty_text_contained(lowercase(a.display_name));
    }
    lemma_matching_is_filter(apps, q, pred);
}

/// A query of white space alone is searched for as the empty text (and so lists
/// every application to show).
pub proof fn lemma_blank_query_is_empty(query: Seq<char>)
    requires
        forall|i: int| 0 <= i < query.len() ==> is_white_space(#[trigger] query[i]),
    ensures
        is_ascii_text(trimmed(query)),
        ascii_lowercase(trimmed(query)).len() == 0,
{
    lemma_blank_trims_to_empty(query);
}

/// For an ASCII query, surrounding white space and the case of its letters do not
/// change the text searched for: the query, the query trimmed, and the query in
/// upper case all give the same searched text (with `get_app_list`'s second
/// clause, the same applications).
pub proof fn lemma_query_case_and_space_insensitive(query: Seq<char>)
    requires
        is_ascii_text(query),
    ensures
        is_ascii_text(trimmed(query)),
        is_ascii_text(trimmed(trimmed(query))),
        is_ascii_text(trimmed(ascii_uppercase(query))),
        ascii_lowercase(trimmed(trimmed(query))) == ascii_lowercase(trimmed(query)),
        ascii_lowercase(trimmed(ascii_uppercase(query))) == ascii_lowercase(trimmed(query)),
{
    lemma_trimmed_ascii(query);
    lemma_trimmed_idempotent(query);
    lemma_uppercase_ascii(query);
    lemma_trimmed_ascii(ascii_uppercase(query));
    lemma_trimmed_uppercase(query);
    lemma_lower_of_upper(trimmed(query));
}

/// A more specific query never lists more: when the searched text `q2` contains
/// `q1`, the applications listed for `q2` are those listed for `q1` that also
/// match `q2`, in the same order.
pub proof fn lemma_more_specific_query(apps: Seq<AppModel>, q1: Seq<char>, q2: Seq<char>)
    requires
        text_contains(q2, q1),
    ensures
        matching_apps(apps, q2) == matching_apps(matching_apps(apps, q1), q2),
        matching_apps(apps, q2).len() <= matching_apps(apps, q1).len(),
    decreases apps.len(),
{
    if apps.len() > 0 {
        lemma_more_specific_query(apps.drop_last(), q1, q2);
        let a = apps.last();
        if app_matches(a, q2) {
            lemma_specific_match(a, q1, q2);
            let prev1 = matching_apps(apps.drop_last(), q1);
            assert(matching_apps(apps, q1) == prev1.push(a));
            assert(matching_apps(apps, q1).drop_last() =~= prev1);
        } else if app_matches(a, q1) {
            let prev1 = matching_apps(apps.drop_last(), q1);
            assert(matching_apps(apps, q1).drop_last() =~= prev1);
        }
    }
    lemma_results_are_filter(matching_apps(apps, q1), q2);
}

proof fn lemma_specific_match(a: AppModel, q1: Seq<char>, q2: Seq<char>)
    requires
        text_contains(q2, q1),
        app_matches(a, q2),
    ensures
        app_matches(a, q1),
{
    if text_contains(lowercase(a.display_name), q2) {
        lemma_contains_transitive(lowercase(a.display_name), q2, q1);
    } else if opt_text_contains(opt_lowercase(a.description), q2) {
        lemma_contains_transitive(opt_lowercase(a.description)->0, q2, q1);
    } else if text_contains(lowercase(a.name), q2) {
        lemma_contains_transitive(lowercase(a.name), q2, q1);
    } else {
        lemma_contains_transitive(opt_lowercase(a.commandline)->0, q2, q1);
    }
}

} // verus!
