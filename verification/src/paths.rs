//! File paths, held as text. What `std::path` computes from them is named
//! here and obtained through `std::path` itself.
use vstd::prelude::*;

verus! {

/// What `Path::file_name` gives for the path written `p`.
pub uninterp spec fn file_name_of(p: Seq<char>) -> Option<Seq<char>>;

/// What `Path::join` gives for the path written `base` and the path written `part`.
pub uninterp spec fn join_of(base: Seq<char>, part: Seq<char>) -> Seq<char>;

/// What `Path::extension` gives for the path written `p`.
pub uninterp spec fn extension_of(p: Seq<char>) -> Option<Seq<char>>;

/// What `Path::parent` gives for the path written `p`.
pub uninterp spec fn parent_of(p: Seq<char>) -> Option<Seq<char>>;

/// The final component of the path `p` (`Path::file_name`), as text.
/// Its result is named [`file_name_of`]; nothing more of it is stated.
#[verifier::external_body]
pub(crate) fn path_file_name(p: &str) -> (r: Option<String>)
    ensures
        match r {
            Some(name) => file_name_of(p@) == Some(name@),
            None => file_name_of(p@) is None,
        },
{
    std::path::Path::new(p).file_name().map(|name| name.to_string_lossy().into_owned())
}

/// `part` adjoined to the path `base` (`Path::join`), as text.
/// Its result is named [`join_of`]; nothing more of it is stated.
#[verifier::external_body]
pub(crate) fn path_join(base: &str, part: &str) -> (r: String)
    ensures
        r@ == join_of(base@, part@),
{
    std::path::Path::new(base).join(part).to_string_lossy().into_owned()
}

/// The extension of the path `p` (`Path::extension`), as text.
/// Its result is named [`extension_of`]; nothing more of it is stated.
#[verifier::external_body]
pub(crate) fn path_extension(p: &str) -> (r: Option<String>)
    ensures
        match r {
            Some(ext) => extension_of(p@) == Some(ext@),
            None => extension_of(p@) is None,
        },
{
    std::path::Path::new(p).extension().map(|ext| ext.to_string_lossy().into_owned())
}

/// The path `p` without its final component (`Path::parent`), as text.
/// Its result is named [`parent_of`]; nothing more of it is stated.
#[verifier::external_body]
pub(crate) fn path_parent(p: &str) -> (r: Option<String>)
    ensures
        match r {
            Some(dir) => parent_of(p@) == Some(dir@),
            None => parent_of(p@) is None,
        },
{
    std::path::Path::new(p).parent().map(|dir| dir.to_string_lossy().into_owned())
}

/// The path `p` has an extension, and it is one of `extensions`.
pub open spec fn has_extension_in(p: Seq<char>, extensions: Seq<Seq<char>>) -> bool {
    match extension_of(p) {
        Some(e) => extensions.contains(e),
        None => false,
    }
}

/// The paths of `paths` whose extension is one of `extensions`, in order.
pub fn filter_extensions(paths: &[String], extensions: &[&str]) -> (r: Vec<String>)
    ensures
        r@.map_values(|p: String| p@) == paths@.map_values(|p: String| p@).filter(
            |p: Seq<char>| has_extension_in(p, extensions@.map_values(|e: &str| e@)),
        ),
{
    let ghost ps = paths@.map_values(|p: String| p@);
    let ghost exts = extensions@.map_values(|e: &str| e@);
    let ghost keep = |p: Seq<char>| has_extension_in(p, exts);
    let mut kept: Vec<String> = Vec::new();
    let mut i: usize = 0;
    while i < paths.len()
        invariant
            i <= paths@.len() == ps.len(),
            ps == paths@.map_values(|p: String| p@),
            exts == extensions@.map_values(|e: &str| e@),
            keep == (|p: Seq<char>| has_extension_in(p, exts)),
            kept@.map_values(|p: String| p@) == ps.take(i as int).filter(keep),
        decreases paths@.len() - i,
    {
        let path = &paths[i];
        let mut found = false;
        match path_extension(path.as_str()) {
            Some(ext) => {
                let mut j: usize = 0;
                while j < extensions.len()
                    invariant
                        j <= extensions@.len() == exts.len(),
                        exts == extensions@.map_values(|e: &str| e@),
                        found <==> exists|k: int| 0 <= k < j && exts[k] == ext@,
                    decreases extensions@.len() - j,
                {
                    if extensions[j].to_owned().eq(&ext) {
                        found = true;
                    }
                    assert(exts[j as int] == extensions@[j as int]@);
                    j = j + 1;
                }
                assert(found == exts.contains(ext@));
            },
            None => {},
        }
        assert(found == keep(path@));
        let ghost old_kept = kept@;
        proof {
            reveal(Seq::filter);
            assert(ps.take(i + 1).drop_last() =~= ps.take(i as int));
            assert(ps.take(i + 1).last() == path@);
        }
        if found {
            kept.push(path.clone());
            assert(kept@.map_values(|p: String| p@) =~= old_kept.map_values(|p: String| p@).push(
                path@,
            ));
        }
        i = i + 1;
    }
    assert(ps.take(i as int) =~= ps);
    kept
}

} // verus!
