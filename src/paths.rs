//! Where the compressed twin of a source file goes.
use vstd::prelude::*;

verus! {

/// The source file does not lie under the source root.
#[derive(Debug, Clone, Copy, PartialEq, Eq, Structural)]
pub enum PathError {
    NotUnderRoot,
}

/// `root` is a proper prefix of `path`: `path` names something inside `root`.
pub open spec fn is_under(path: Seq<Seq<char>>, root: Seq<Seq<char>>) -> bool {
    root.len() < path.len() && path.subrange(0, root.len() as int) == root
}

/// The suffix given to compressed files.
pub open spec fn gz_suffix() -> Seq<char> {
    seq!['.', 'g', 'z']
}

/// The destination of `source`: its path relative to `src_root`, re-rooted
/// under `dst_root`, with the suffix appended to the file name.
pub open spec fn destination_of(
    source: Seq<Seq<char>>,
    src_root: Seq<Seq<char>>,
    dst_root: Seq<Seq<char>>,
) -> Seq<Seq<char>>
    recommends
        is_under(source, src_root),
{
    let rel = source.subrange(src_root.len() as int, source.len() as int);
    dst_root + rel.drop_last() + seq![rel.last() + gz_suffix()]
}

/// The destination mirrors the source: a file at
/// `<src_root>/<lang>/<sub>/<name>` goes to
/// `<dst_root>/<lang>/<sub>/<name>.gz`, whatever the depth of `<sub>`.
pub proof fn lemma_destination_mirrors_source(
    src_root: Seq<Seq<char>>,
    dst_root: Seq<Seq<char>>,
    lang: Seq<char>,
    sub: Seq<Seq<char>>,
    name: Seq<char>,
)
    ensures
        is_under(src_root + seq![lang] + sub + seq![name], src_root),
        destination_of(src_root + seq![lang] + sub + seq![name], src_root, dst_root) == dst_root
            + seq![lang] + sub + seq![name + gz_suffix()],
{
    let source = src_root + seq![lang] + sub + seq![name];
    assert(source.subrange(0, src_root.len() as int) =~= src_root);
    let rel = source.subrange(src_root.len() as int, source.len() as int);
    assert(rel =~= seq![lang] + sub + seq![name]);
    assert(rel.drop_last() =~= seq![lang] + sub);
    assert(destination_of(source, src_root, dst_root) =~= dst_root + seq![lang] + sub + seq![
        name + gz_suffix(),
    ]);
}

/// Tells whether `root` is a proper prefix of `path`, component by component.
pub fn lies_under(path: &Vec<String>, root: &Vec<String>) -> (r: bool)
    ensures
        r == is_under(path.deep_view(), root.deep_view()),
{
    if root.len() >= path.len() {
        return false;
    }
    let mut i: usize = 0;
    while i < root.len()
        invariant
            root.len() < path.len(),
            i <= root.len(),
            path.deep_view().subrange(0, i as int) == root.deep_view().subrange(0, i as int),
        decreases root.len() - i,
    {
        if path[i] != root[i] {
            assert(path.deep_view().subrange(0, root.len() as int)[i as int] != root.deep_view()[i as int]);
            return false;
        }
        assert(path.deep_view().subrange(0, i + 1) =~= path.deep_view().subrange(0, i as int).push(path[i as int]@));
        assert(root.deep_view().subrange(0, i + 1) =~= root.deep_view().subrange(0, i as int).push(root[i as int]@));
        i = i + 1;
    }
    assert(root.deep_view().subrange(0, root.len() as int) =~= root.deep_view());
    true
}

/// Maps a source file to its destination: the path of `source` relative to
/// `src_root`, re-rooted under `dst_root`, with `.gz` appended to the file
/// name (the source extension stays). Fails when `source` does not lie
/// inside `src_root`.
pub fn map_destination(source: &Vec<String>, src_root: &Vec<String>, dst_root: &Vec<String>) -> (r:
    Result<Vec<String>, PathError>)
    ensures
        r is Ok == is_under(source.deep_view(), src_root.deep_view()),
        r is Ok ==> r->Ok_0.deep_view() == destination_of(
            source.deep_view(),
            src_root.deep_view(),
            dst_root.deep_view(),
        ),
        r is Err ==> r->Err_0 == PathError::NotUnderRoot,
{
    if !lies_under(source, src_root) {
        return Err(PathError::NotUnderRoot);
    }
    let ghost target = destination_of(source.deep_view(), src_root.deep_view(), dst_root.deep_view());
    let mut d: Vec<String> = Vec::new();
    let mut i: usize = 0;
    while i < dst_root.len()
        invariant
            i <= dst_root.len(),
            d.deep_view() == dst_root.deep_view().subrange(0, i as int),
        decreases dst_root.len() - i,
    {
        let c = dst_root[i].clone();
        let ghost before = d.deep_view();
        d.push(c);
        assert(d.deep_view() =~= before.push(dst_root[i as int]@));
        assert(d.deep_view() =~= dst_root.deep_view().subrange(0, i + 1));
        i = i + 1;
    }
    let last = source.len() - 1;
    let mut j: usize = src_root.len();
    while j < last
        invariant
            src_root.len() <= j <= last,
            last == source.len() - 1,
            d.deep_view() == dst_root.deep_view() + source.deep_view().subrange(
                src_root.len() as int,
                j as int,
            ),
        decreases last - j,
    {
        let c = source[j].clone();
        let ghost before = d.deep_view();
        d.push(c);
        assert(d.deep_view() =~= before.push(source[j as int]@));
        assert(d.deep_view() =~= dst_root.deep_view() + source.deep_view().subrange(
            src_root.len() as int,
            j + 1,
        ));
        j = j + 1;
    }
    proof {
        reveal_strlit(".gz");
        assert(".gz"@ =~= gz_suffix());
    }
    let name = source[last].clone().concat(".gz");
    let ghost before = d.deep_view();
    d.push(name);
    assert(d.deep_view() =~= before.push(source[last as int]@ + gz_suffix()));
    assert(d.deep_view() =~= target);
    Ok(d)
}

/// The directory that holds a destination file: every component but the last.
pub fn parent_of(path: &Vec<String>) -> (r: Vec<String>)
    requires
        path.len() > 0,
    ensures
        r.deep_view() == path.deep_view().drop_last(),
{
    let mut r: Vec<String> = Vec::new();
    let mut i: usize = 0;
    while i + 1 < path.len()
        invariant
            path.len() > 0,
            i < path.len(),
            r.deep_view() == path.deep_view().subrange(0, i as int),
        decreases path.len() - i,
    {
        let c = path[i].clone();
        let ghost before = r.deep_view();
        r.push(c);
        assert(r.deep_view() =~= before.push(path[i as int]@));
        assert(r.deep_view() =~= path.deep_view().subrange(0, i + 1));
        i = i + 1;
    }
    assert(path.deep_view().drop_last() =~= path.deep_view().subrange(0, i as int));
    r
}

} // verus!
