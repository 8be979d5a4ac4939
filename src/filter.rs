//! Which files of the source tree are compressed.
use vstd::prelude::*;
use crate::text::{ends_with_text, same_text};

verus! {

/// A language code of the allow-list.
pub open spec fn is_language_code(s: Seq<char>) -> bool {
    ||| s == seq!['a', 'r']
    ||| s == seq!['e', 'n']
    ||| s == seq!['e', 's']
    ||| s == seq!['f', 'r']
    ||| s == seq!['h', 'i']
    ||| s == seq!['j', 'a']
    ||| s == seq!['p', 't']
    ||| s == seq!['r', 'u']
    ||| s == seq!['z', 'h']
}

/// A file name whose extension is `jsonl`: something before the last dot, and
/// `jsonl` after it.
pub open spec fn is_data_file_name(name: Seq<char>) -> bool {
    name.len() > 6 && name.subrange(name.len() - 6, name.len() as int) == seq![
        '.',
        'j',
        's',
        'o',
        'n',
        'l',
    ]
}

/// A path, relative to the source root, that names a data file inside an
/// allowed language directory.
pub open spec fn is_source_candidate(rel: Seq<Seq<char>>) -> bool {
    rel.len() >= 2 && is_language_code(rel[0]) && is_data_file_name(rel.last())
}

/// Only files inside allowed language directories are selected: whatever a
/// directory with another name holds, none of it is kept.
pub proof fn lemma_selection_excludes_other_languages(paths: Seq<Seq<Seq<char>>>)
    ensures
        forall|i: int|
            0 <= i < paths.filter(source_filter()).len() ==> is_language_code(
                #[trigger] paths.filter(source_filter())[i][0],
            ),
        forall|p: Seq<Seq<char>>|
            p.len() > 0 && !is_language_code(p[0]) ==> !#[trigger] paths.filter(
                source_filter(),
            ).contains(p),
{
    broadcast use Seq::lemma_filter_pred;

    assert forall|p: Seq<Seq<char>>| p.len() > 0 && !is_language_code(p[0]) implies !#[trigger] paths.filter(
        source_filter(),
    ).contains(p) by {
        if paths.filter(source_filter()).contains(p) {
            let k = choose|k: int|
                0 <= k < paths.filter(source_filter()).len() && paths.filter(source_filter())[k]
                    == p;
            assert(source_filter()(paths.filter(source_filter())[k]));
        }
    }
}

/// [`is_source_candidate`] as a predicate.
pub open spec fn source_filter() -> spec_fn(Seq<Seq<char>>) -> bool {
    |rel: Seq<Seq<char>>| is_source_candidate(rel)
}

/// Tells whether a directory name is one of the allowed language codes.
pub fn is_allowed_language(name: &str) -> (r: bool)
    ensures
        r == is_language_code(name@),
{
    proof {
        reveal_strlit("ar");
        reveal_strlit("en");
        reveal_strlit("es");
        reveal_strlit("fr");
        reveal_strlit("hi");
        reveal_strlit("ja");
        reveal_strlit("pt");
        reveal_strlit("ru");
        reveal_strlit("zh");
        assert("ar"@ =~= seq!['a', 'r']);
        assert("en"@ =~= seq!['e', 'n']);
        assert("es"@ =~= seq!['e', 's']);
        assert("fr"@ =~= seq!['f', 'r']);
        assert("hi"@ =~= seq!['h', 'i']);
        assert("ja"@ =~= seq!['j', 'a']);
        assert("pt"@ =~= seq!['p', 't']);
        assert("ru"@ =~= seq!['r', 'u']);
        assert("zh"@ =~= seq!['z', 'h']);
    }
    same_text(name, "ar") || same_text(name, "en") || same_text(name, "es") || same_text(
        name,
        "fr",
    ) || same_text(name, "hi") || same_text(name, "ja") || same_text(name, "pt") || same_text(
        name,
        "ru",
    ) || same_text(name, "zh")
}

/// Tells whether a file name has the data-file extension.
pub fn is_data_file(name: &str) -> (r: bool)
    ensures
        r == is_data_file_name(name@),
{
    proof {
        reveal_strlit(".jsonl");
        assert(".jsonl"@ =~= seq!['.', 'j', 's', 'o', 'n', 'l']);
    }
    name.unicode_len() > 6 && ends_with_text(name, ".jsonl")
}

/// Tells whether a path, relative to the source root, names a data file
/// inside an allowed language directory.
pub fn is_candidate(rel: &Vec<String>) -> (r: bool)
    ensures
        r == is_source_candidate(rel.deep_view()),
{
    let n = rel.len();
    n >= 2 && is_allowed_language(rel[0].as_str()) && is_data_file(rel[n - 1].as_str())
}

/// Keeps, in their order, the paths relative to the source root that name
/// data files inside allowed language directories.
pub fn select_sources(paths: &Vec<Vec<String>>) -> (r: Vec<Vec<String>>)
    ensures
        r.deep_view() == paths.deep_view().filter(source_filter()),
{
    let mut r: Vec<Vec<String>> = Vec::new();
    let mut i: usize = 0;
    while i < paths.len()
        invariant
            i <= paths.len(),
            r.deep_view() == paths.deep_view().take(i as int).filter(source_filter()),
        decreases paths.len() - i,
    {
        let ghost t = paths.deep_view().take(i + 1);
        assert(t.drop_last() == paths.deep_view().take(i as int));
        assert(t.last() == paths[i as int].deep_view());
        assert(source_filter()(t.last()) == is_source_candidate(paths[i as int].deep_view()));
        assert(t.filter(source_filter()) == (if source_filter()(t.last()) {
            t.drop_last().filter(source_filter()).push(t.last())
        } else {
            t.drop_last().filter(source_filter())
        })) by {
            reveal(Seq::filter);
        }
        if is_candidate(&paths[i]) {
            let p = paths[i].clone();
            assert(p.deep_view() =~= paths[i as int].deep_view());
            let ghost before = r.deep_view();
            r.push(p);
            assert(r.deep_view() =~= before.push(paths[i as int].deep_view()));
        }
        i = i + 1;
    }
    assert(paths.deep_view().take(paths.len() as int) =~= paths.deep_view());
    r
}

} // verus!
