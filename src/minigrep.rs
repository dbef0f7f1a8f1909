//! Line search: the lines of a text that contain a query, with or without
//! regard to case.
use vstd::prelude::*;
use vstd::string::StringExecFns;

verus! {

/// The lines of `s` as `str::lines` splits them.
pub uninterp spec fn lines_of(s: Seq<char>) -> Seq<Seq<char>>;

/// The lower-case form of `s` as `str::to_lowercase` computes it.
pub uninterp spec fn lower_of(s: Seq<char>) -> Seq<char>;

/// Whether `needle` occurs as a contiguous run inside `hay`.
pub open spec fn contains_seq(hay: Seq<char>, needle: Seq<char>) -> bool {
    exists|i: int|
        0 <= i && i + needle.len() <= hay.len() && #[trigger] hay.subrange(i, i + needle.len())
            == needle
}

/// The views of a sequence of string slices.
pub open spec fn views<'a>(v: Seq<&'a str>) -> Seq<Seq<char>> {
    v.map_values(|l: &'a str| l@)
}

/// Relies on `str::lines`: the lines of `s`, each a slice of it; the split
/// depends on the characters of `s` alone.
#[verifier::external_body]
fn split_lines<'a>(s: &'a str) -> (r: Vec<&'a str>)
    ensures
        views(r@) == lines_of(s@),
{
    s.lines().collect()
}

/// Relies on `str::contains` with a `&str` pattern: whether `needle` occurs
/// in `hay`.
#[verifier::external_body]
fn str_contains(hay: &str, needle: &str) -> (r: bool)
    ensures
        r == contains_seq(hay@, needle@),
{
    hay.contains(needle)
}

/// Relies on `str::to_lowercase`: the result depends on the characters alone.
#[verifier::external_body]
fn lowercase(s: &str) -> (r: String)
    ensures
        r@ == lower_of(s@),
{
    s.to_lowercase()
}

/// What to search for and where.
pub struct Config {
    pub query: String,
    pub filename: String,
    pub ignore_case: bool,
}

impl Config {
    /// The query and file name from `args` (after the program name), with the
    /// case policy given; fails when either is missing.
    pub fn new(args: &[String], ignore_case: bool) -> (r: Result<Config, &'static str>)
        ensures
            args@.len() < 3 <==> r is Err,
            r is Err ==> r->Err_0@ == "not enough arguments"@,
            r is Ok ==> r->Ok_0.query@ == args@[1]@ && r->Ok_0.filename@ == args@[2]@
                && r->Ok_0.ignore_case == ignore_case,
    {
        if args.len() < 3 {
            proof {
                reveal_strlit("not enough arguments");
            }
            return Err("not enough arguments");
        }
        let query = String::from_str(args[1].as_str());
        let filename = String::from_str(args[2].as_str());
        Ok(Config { query, filename, ignore_case })
    }
}

/// The views of a sequence of strings.
pub open spec fn string_views(v: Seq<String>) -> Seq<Seq<char>> {
    v.map_values(|l: String| l@)
}

/// The entries of `lines` whose partner at the same place in `folded`
/// contains `q`, in order.
pub open spec fn select_folded(lines: Seq<Seq<char>>, folded: Seq<Seq<char>>, q: Seq<char>) -> Seq<
    Seq<char>,
>
    decreases lines.len(),
{
    if lines.len() == 0 || folded.len() == 0 {
        Seq::empty()
    } else {
        let rest = select_folded(lines.drop_last(), folded.drop_last(), q);
        if contains_seq(folded.last(), q) {
            rest.push(lines.last())
        } else {
            rest
        }
    }
}

/// Selecting by the lower-case partners of the lines is filtering the lines
/// by their lower-case form.
pub proof fn lemma_select_folded_is_filter(lines: Seq<Seq<char>>, q: Seq<char>)
    ensures
        select_folded(lines, lines.map_values(|l: Seq<char>| lower_of(l)), q) == lines.filter(
            |l: Seq<char>| contains_seq(lower_of(l), q),
        ),
    decreases lines.len(),
{
    let f = |l: Seq<char>| lower_of(l);
    let p = |l: Seq<char>| contains_seq(lower_of(l), q);
    if lines.len() > 0 {
        let init = lines.drop_last();
        lemma_select_folded_is_filter(init, q);
        assert(lines.map_values(f).drop_last() =~= init.map_values(f));
        assert(lines =~= init.push(lines.last()));
        init.lemma_filter_push(lines.last(), p);
    } else {
        assert(lines.filter(p) =~= Seq::<Seq<char>>::empty()) by {
            lines.lemma_filter_len(p);
        }
    }
}

/// The lines that contain `query`, in order.
pub fn filter_lines<'a>(lines: &Vec<&'a str>, query: &str) -> (r: Vec<&'a str>)
    ensures
        views(r@) == views(lines@).filter(|l: Seq<char>| contains_seq(l, query@)),
{
    let ghost keep = |l: Seq<char>| contains_seq(l, query@);
    let ghost all = views(lines@);
    let mut r: Vec<&'a str> = Vec::new();
    let mut i: usize = 0;
    while i < lines.len()
        invariant
            i <= lines@.len(),
            all == views(lines@),
            keep == (|l: Seq<char>| contains_seq(l, query@)),
            views(r@) == all.take(i as int).filter(keep),
        decreases lines.len() - i,
    {
        let line: &'a str = lines[i];
        proof {
            assert(all.take(i + 1) =~= all.take(i as int).push(all[i as int]));
            all.take(i as int).lemma_filter_push(all[i as int], keep);
        }
        if str_contains(line, query) {
            let ghost before = r@;
            r.push(line);
            proof {
                assert(views(r@) =~= views(before).push(line@));
            }
        }
        i = i + 1;
    }
    proof {
        assert(all.take(i as int) =~= all);
    }
    r
}

/// The lines whose partner at the same place in `folded` contains
/// `folded_query`, in order.
pub fn filter_lines_folded<'a>(lines: &Vec<&'a str>, folded: &Vec<String>, folded_query: &str) -> (r:
    Vec<&'a str>)
    requires
        lines@.len() == folded@.len(),
    ensures
        views(r@) == select_folded(views(lines@), string_views(folded@), folded_query@),
{
    let ghost all = views(lines@);
    let ghost fall = string_views(folded@);
    let mut r: Vec<&'a str> = Vec::new();
    let mut i: usize = 0;
    while i < lines.len()
        invariant
            i <= lines@.len(),
            lines@.len() == folded@.len(),
            all == views(lines@),
            fall == string_views(folded@),
            views(r@) == select_folded(all.take(i as int), fall.take(i as int), folded_query@),
        decreases lines.len() - i,
    {
        let line: &'a str = lines[i];
        proof {
            assert(all.take(i + 1).drop_last() =~= all.take(i as int));
            assert(fall.take(i + 1).drop_last() =~= fall.take(i as int));
            assert(all.take(i + 1).last() == all[i as int]);
            assert(fall.take(i + 1).last() == fall[i as int]);
        }
        if str_contains(folded[i].as_str(), folded_query) {
            let ghost before = r@;
            r.push(line);
            proof {
                assert(views(r@) =~= views(before).push(line@));
            }
        }
        i = i + 1;
    }
    proof {
        assert(all.take(i as int) =~= all);
        assert(fall.take(i as int) =~= fall);
    }
    r
}

/// The lines of `contents` that contain `query`, in order.
pub fn search<'a>(query: &str, contents: &'a str) -> (r: Vec<&'a str>)
    ensures
        views(r@) == lines_of(contents@).filter(|l: Seq<char>| contains_seq(l, query@)),
{
    let lines = split_lines(contents);
    filter_lines(&lines, query)
}

/// The lines of `contents` whose lower-case form contains the lower-case
/// form of `query`, in order.
pub fn search_case_insensitive<'a>(query: &str, contents: &'a str) -> (r: Vec<&'a str>)
    ensures
        views(r@) == lines_of(contents@).filter(
            |l: Seq<char>| contains_seq(lower_of(l), lower_of(query@)),
        ),
{
    let folded_query = lowercase(query);
    let lines = split_lines(contents);
    let ghost all = views(lines@);
    let mut folded: Vec<String> = Vec::new();
    let mut i: usize = 0;
    while i < lines.len()
        invariant
            i <= lines@.len(),
            all == views(lines@),
            folded@.len() == i,
            forall|j: int| 0 <= j < i ==> (#[trigger] folded@[j])@ == lower_of(all[j]),
        decreases lines.len() - i,
    {
        let f = lowercase(lines[i]);
        folded.push(f);
        i = i + 1;
    }
    let r = filter_lines_folded(&lines, &folded, folded_query.as_str());
    proof {
        assert(string_views(folded@) =~= all.map_values(|l: Seq<char>| lower_of(l)));
        lemma_select_folded_is_filter(all, lower_of(query@));
    }
    r
}

} // verus!
