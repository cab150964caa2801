//! Templates of setups, and the registry that indexes them by name.
use vstd::prelude::*;

use crate::paths::{join_of, path_join};

verus! {

/// Why a template could not be used.
#[derive(Debug)]
pub enum TemplateError {
    /// The template was copied before its repository was checked out.
    NotCheckedOut,
    /// No template of the registry has this name.
    NotFound(String),
}

impl TemplateError {
    /// The message of the error.
    pub fn message(&self) -> (r: String)
        ensures
            r@ == match self {
                TemplateError::NotCheckedOut => "please checkout before copy"@,
                TemplateError::NotFound(name) => "template `"@ + name@ + "` not found"@,
            },
    {
        match self {
            TemplateError::NotCheckedOut => "please checkout before copy".to_owned(),
            TemplateError::NotFound(name) => {
                let mut m = "template `".to_owned();
                m.append(name.as_str());
                m.append("` not found");
                m
            },
        }
    }
}

/// A template: its name, the url of its repository, and the directory where
/// that repository was checked out, once it was.
#[derive(Debug)]
pub struct Template {
    name: String,
    url: String,
    dir: Option<String>,
}

/// Mathematical model of a [`Template`].
pub struct TemplateModel {
    pub name: Seq<char>,
    pub url: Seq<char>,
    pub dir: Option<Seq<char>>,
}

impl View for Template {
    type V = TemplateModel;

    closed spec fn view(&self) -> TemplateModel {
        TemplateModel {
            name: self.name@,
            url: self.url@,
            dir: match self.dir {
                Some(d) => Some(d@),
                None => None,
            },
        }
    }
}

/// The name of an entry of a checked-out template (relative to its
/// directory) is copied: it is not empty, does not start with `.git`, and is
/// not the setup file `short.yaml`.
pub open spec fn is_template_item(name: Seq<char>) -> bool {
    &&& name.len() > 0
    &&& !(name.len() >= 4 && name.take(4) == ".git"@)
    &&& name != "short.yaml"@
}

/// The paths that a copy of the checked-out directory `dir` gives for its
/// entries `names`: each entry that is copied, joined to `dir`, in order.
pub open spec fn copied_paths(dir: Seq<char>, names: Seq<Seq<char>>) -> Seq<Seq<char>> {
    names.filter(|n: Seq<char>| is_template_item(n)).map_values(|n: Seq<char>| join_of(dir, n))
}

/// The entry `n` is neither empty, nor a name that starts with `.git`, nor
/// the setup file `short.yaml` (each written out character by character).
pub open spec fn is_plain_entry(n: Seq<char>) -> bool {
    &&& n.len() > 0
    &&& !(n.len() >= 4 && n.take(4) =~= seq!['.', 'g', 'i', 't'])
    &&& !(n =~= seq!['s', 'h', 'o', 'r', 't', '.', 'y', 'a', 'm', 'l'])
}

/// A copy leaves an entry out only when it is empty, starts with `.git`, or
/// is the setup file `short.yaml`: every other entry, dotfiles such as
/// `.editorconfig` included, is copied (joined to the checkout directory),
/// and the copied paths are exactly those entries joined to it, in order.
pub proof fn lemma_copy_leaves_out_only_git_and_setup(dir: Seq<char>, names: Seq<Seq<char>>)
    ensures
        forall|i: int|
            0 <= i < names.len() && is_plain_entry(#[trigger] names[i]) ==> copied_paths(
                dir,
                names,
            ).contains(join_of(dir, names[i])),
        copied_paths(dir, names) == names.filter(|n: Seq<char>| is_plain_entry(n)).map_values(
            |n: Seq<char>| join_of(dir, n),
        ),
{
    reveal_strlit(".git");
    reveal_strlit("short.yaml");
    let keep = |n: Seq<char>| is_template_item(n);
    let plain = |n: Seq<char>| is_plain_entry(n);
    let f = names.filter(keep);
    let copied = copied_paths(dir, names);
    assert(".git"@ =~= seq!['.', 'g', 'i', 't']);
    assert("short.yaml"@ =~= seq!['s', 'h', 'o', 'r', 't', '.', 'y', 'a', 'm', 'l']);
    assert forall|n: Seq<char>| #[trigger] is_plain_entry(n) == is_template_item(n) by {}
    assert(keep =~= plain);
    assert forall|i: int| 0 <= i < names.len() && is_plain_entry(#[trigger] names[i]) implies copied.contains(
        join_of(dir, names[i]),
    ) by {
        assert(keep(names[i]));
        names.lemma_filter_contains(keep, i);
        let j = choose|j: int| 0 <= j < f.len() && f[j] == names[i];
        assert(copied[j] == join_of(dir, names[i]));
    }
}

/// `s` starts with `prefix`.
fn starts_with(s: &str, prefix: &str) -> (r: bool)
    ensures
        r == (s@.len() >= prefix@.len() && s@.take(prefix@.len() as int) == prefix@),
{
    let cs = crate::text::str_to_chars(s);
    let ps = crate::text::str_to_chars(prefix);
    if cs.len() < ps.len() {
        return false;
    }
    let mut i: usize = 0;
    while i < ps.len()
        invariant
            i <= ps@.len() <= cs@.len(),
            cs@ == s@,
            ps@ == prefix@,
            forall|j: int| 0 <= j < i ==> cs@[j] == ps@[j],
        decreases ps@.len() - i,
    {
        if cs[i] != ps[i] {
            assert(s@.take(prefix@.len() as int)[i as int] != prefix@[i as int]);
            return false;
        }
        i = i + 1;
    }
    assert(s@.take(prefix@.len() as int) =~= prefix@);
    true
}

/// Whether the entry `name` of a checked-out template is copied.
fn is_template_item_name(name: &str) -> (r: bool)
    ensures
        r == is_template_item(name@),
{
    proof {
        reveal_strlit(".git");
    }
    let empty = name.unicode_len() == 0;
    let git = starts_with(name, ".git");
    let setup_file = name.to_owned().eq(&"short.yaml".to_owned());
    !empty && !git && !setup_file
}

impl Template {
    /// The template `name` whose repository is at `url`, not checked out.
    pub fn new(name: String, url: String) -> (r: Self)
        ensures
            r@ == (TemplateModel { name: name@, url: url@, dir: None }),
    {
        Template { name, url, dir: None }
    }

    pub fn name(&self) -> (r: &String)
        ensures
            r@ == self@.name,
    {
        &self.name
    }

    pub fn url(&self) -> (r: &String)
        ensures
            r@ == self@.url,
    {
        &self.url
    }

    pub fn set_name(&mut self, name: String)
        ensures
            final(self)@ == (TemplateModel { name: name@, ..old(self)@ }),
    {
        self.name = name;
    }

    /// Records that the repository of the template was cloned into
    /// `target_dir`.
    pub fn checkout(&mut self, target_dir: String)
        ensures
            final(self)@ == (TemplateModel { dir: Some(target_dir@), ..old(self)@ }),
    {
        self.dir = Some(target_dir);
    }

    /// The paths of the entries `names` of the checked-out directory that are
    /// copied, in order; an error when the template was not checked out.
    pub fn copy(&self, names: &Vec<String>) -> (r: Result<Vec<String>, TemplateError>)
        ensures
            match (r, self@.dir) {
                (Ok(paths), Some(dir)) => paths@.map_values(|p: String| p@) == copied_paths(
                    dir,
                    names@.map_values(|n: String| n@),
                ),
                (Err(e), None) => e is NotCheckedOut,
                _ => false,
            },
    {
        let dir = match &self.dir {
            Some(d) => d,
            None => {
                return Err(TemplateError::NotCheckedOut);
            },
        };
        let ghost ns = names@.map_values(|n: String| n@);
        let ghost keep = |n: Seq<char>| is_template_item(n);
        let ghost join = |n: Seq<char>| join_of(dir@, n);
        let mut paths: Vec<String> = Vec::new();
        let mut i: usize = 0;
        while i < names.len()
            invariant
                i <= names@.len() == ns.len(),
                ns == names@.map_values(|n: String| n@),
                keep == (|n: Seq<char>| is_template_item(n)),
                join == (|n: Seq<char>| join_of(dir@, n)),
                paths@.map_values(|p: String| p@) == ns.take(i as int).filter(keep).map_values(
                    join,
                ),
            decreases names@.len() - i,
        {
            let ghost old_paths = paths@;
            let name = &names[i];
            proof {
                reveal(Seq::filter);
                assert(ns.take(i + 1).drop_last() =~= ns.take(i as int));
                assert(ns.take(i + 1).last() == name@);
                assert(ns.take(i + 1).filter(keep) == if keep(name@) {
                    ns.take(i as int).filter(keep).push(name@)
                } else {
                    ns.take(i as int).filter(keep)
                });
            }
            if is_template_item_name(name.as_str()) {
                paths.push(path_join(dir.as_str(), name.as_str()));
                assert(paths@.map_values(|p: String| p@) =~= old_paths.map_values(|p: String| p@).push(
                    join_of(dir@, name@),
                ));
                assert(ns.take(i as int).filter(keep).push(name@).map_values(join) =~= ns.take(
                    i as int,
                ).filter(keep).map_values(join).push(join(name@)));
            }
            i = i + 1;
        }
        assert(ns.take(i as int) =~= ns);
        Ok(paths)
    }
}

/// The names of `ts` are all different.
pub open spec fn names_unique(ts: Seq<TemplateModel>) -> bool {
    forall|i: int, j: int| 0 <= i < j < ts.len() ==> #[trigger] ts[i].name != #[trigger] ts[j].name
}

/// The templates of `ts`, by name.
pub open spec fn index_map(ts: Seq<TemplateModel>) -> Map<Seq<char>, TemplateModel>
    decreases ts.len(),
{
    if ts.len() == 0 {
        Map::empty()
    } else {
        index_map(ts.drop_last()).insert(ts.last().name, ts.last())
    }
}

proof fn lemma_index_map(ts: Seq<TemplateModel>)
    requires
        names_unique(ts),
    ensures
        forall|n: Seq<char>|
            #[trigger] index_map(ts).contains_key(n) <==> exists|i: int|
                0 <= i < ts.len() && ts[i].name == n,
        forall|i: int| 0 <= i < ts.len() ==> #[trigger] index_map(ts)[ts[i].name] == ts[i],
    decreases ts.len(),
{
    if ts.len() > 0 {
        let init = ts.drop_last();
        assert(names_unique(init));
        lemma_index_map(init);
        assert forall|n: Seq<char>|
            #[trigger] index_map(ts).contains_key(n) <==> exists|i: int|
                0 <= i < ts.len() && ts[i].name == n by {
            if index_map(init).contains_key(n) {
                let i = choose|i: int| 0 <= i < init.len() && init[i].name == n;
                assert(ts[i].name == n);
            }
            if exists|i: int| 0 <= i < ts.len() && ts[i].name == n {
                let i = choose|i: int| 0 <= i < ts.len() && ts[i].name == n;
                if i < ts.len() - 1 {
                    assert(init[i].name == n);
                }
            }
        }
        assert forall|i: int| 0 <= i < ts.len() implies #[trigger] index_map(ts)[ts[i].name]
            == ts[i] by {
            if i < ts.len() - 1 {
                assert(init[i] == ts[i]);
                assert(ts[i].name != ts[ts.len() - 1].name);
                assert(index_map(init)[init[i].name] == init[i]);
            }
        }
    }
}

/// The templates known by name.
#[derive(Debug)]
pub struct Registry {
    index: Vec<Template>,
}

impl Registry {
    /// The models of the templates, in the order they were added.
    pub closed spec fn templates(&self) -> Seq<TemplateModel> {
        self.index@.map_values(|t: Template| t@)
    }

    #[verifier::type_invariant]
    closed spec fn wf(&self) -> bool {
        names_unique(self.templates())
    }
}

impl View for Registry {
    type V = Map<Seq<char>, TemplateModel>;

    closed spec fn view(&self) -> Map<Seq<char>, TemplateModel> {
        index_map(self.templates())
    }
}

impl Registry {
    /// The empty registry.
    pub fn new() -> (r: Self)
        ensures
            r@ == Map::<Seq<char>, TemplateModel>::empty(),
    {
        let r = Registry { index: Vec::new() };
        assert(r.templates() =~= Seq::<TemplateModel>::empty());
        r
    }

    /// Adds `template` unless a template of the same name is known; says
    /// whether it was added.
    pub fn insert(&mut self, template: Template) -> (added: bool)
        ensures
            added == !old(self)@.contains_key(template@.name),
            final(self)@ == if added {
                old(self)@.insert(template@.name, template@)
            } else {
                old(self)@
            },
    {
        proof {
            use_type_invariant(&*self);
            lemma_index_map(self.templates());
        }
        let ghost before = self.templates();
        let mut i: usize = 0;
        while i < self.index.len()
            invariant
                i <= self.index@.len(),
                before == self.templates(),
                forall|j: int| 0 <= j < i ==> #[trigger] before[j].name != template@.name,
            decreases self.index@.len() - i,
        {
            assert(before[i as int] == self.index@[i as int]@);
            if self.index[i].name().eq(template.name()) {
                proof {
                    use_type_invariant(&*self);
                    lemma_index_map(before);
                }
                assert(before[i as int].name == template@.name);
                assert(index_map(before).contains_key(template@.name));
                return false;
            }
            i = i + 1;
        }
        assert(!index_map(before).contains_key(template@.name));
        let ghost item = template@;
        let mut index = Vec::new();
        std::mem::swap(&mut index, &mut self.index);
        index.push(template);
        assert(index@.map_values(|t: Template| t@) =~= before.push(item));
        assert(before.push(item).drop_last() =~= before);
        *self = Registry { index };
        true
    }

    /// The templates, each once.
    pub fn index(&self) -> (r: &Vec<Template>)
        ensures
            r@.len() == self@.len(),
            forall|i: int|
                0 <= i < r@.len() ==> self@.contains_key(#[trigger] r@[i]@.name) && self@[r@[i]@.name]
                    == r@[i]@,
            forall|n: Seq<char>|
                #[trigger] self@.contains_key(n) ==> exists|i: int| 0 <= i < r@.len() && r@[i]@.name == n,
    {
        proof {
            use_type_invariant(self);
            lemma_index_map(self.templates());
            lemma_index_len(self.templates());
            assert forall|i: int| 0 <= i < self.index@.len() implies self@.contains_key(
                #[trigger] self.index@[i]@.name,
            ) && self@[self.index@[i]@.name] == self.index@[i]@ by {
                assert(self.templates()[i] == self.index@[i]@);
            }
            assert forall|n: Seq<char>| #[trigger] self@.contains_key(n) implies exists|i: int|
                0 <= i < self.index@.len() && self.index@[i]@.name == n by {
                let i = choose|i: int| 0 <= i < self.templates().len() && self.templates()[i].name == n;
                assert(self.templates()[i] == self.index@[i]@);
            }
        }
        &self.index
    }

    /// The template named `name`, not checked out; an error when none is.
    pub fn get(&self, name: &str) -> (r: Result<Template, TemplateError>)
        ensures
            match (r, self@.contains_key(name@)) {
                (Ok(t), true) => t@ == (TemplateModel {
                    name: name@,
                    url: self@[name@].url,
                    dir: None,
                }),
                (Err(e), false) => e matches TemplateError::NotFound(n) && n@ == name@,
                _ => false,
            },
    {
        proof {
            use_type_invariant(self);
            lemma_index_map(self.templates());
        }
        let wanted = name.to_owned();
        let mut i: usize = 0;
        while i < self.index.len()
            invariant
                i <= self.index@.len(),
                wanted@ == name@,
                forall|j: int| 0 <= j < i ==> #[trigger] self.templates()[j].name != name@,
            decreases self.index@.len() - i,
        {
            let t = &self.index[i];
            assert(self.templates()[i as int] == t@);
            if t.name().eq(&wanted) {
                proof {
                    use_type_invariant(self);
                    lemma_index_map(self.templates());
                }
                assert(index_map(self.templates())[self.templates()[i as int].name]
                    == self.templates()[i as int]);
                assert(index_map(self.templates()).contains_key(self.templates()[i as int].name));
                return Ok(Template::new(t.name().clone(), t.url().clone()));
            }
            i = i + 1;
        }
        Err(TemplateError::NotFound(wanted))
    }
}

proof fn lemma_index_len(ts: Seq<TemplateModel>)
    requires
        names_unique(ts),
    ensures
        index_map(ts).len() == ts.len(),
        index_map(ts).dom().finite(),
    decreases ts.len(),
{
    if ts.len() > 0 {
        let init = ts.drop_last();
        assert(names_unique(init));
        lemma_index_len(init);
        lemma_index_map(init);
        assert(!index_map(init).contains_key(ts.last().name)) by {
            if index_map(init).contains_key(ts.last().name) {
                let i = choose|i: int| 0 <= i < init.len() && init[i].name == ts.last().name;
                assert(ts[i].name == ts[ts.len() - 1].name);
            }
        }
    }
}

/// What [`Registry::get`] finds after [`Registry::insert`]: the template
/// that was inserted under a name the registry did not know, or the one it
/// already knew under that name; the other names are unaffected.
pub proof fn lemma_get_after_insert(
    index: Map<Seq<char>, TemplateModel>,
    template: TemplateModel,
    wanted: Seq<char>,
)
    ensures
        ({
            let after = if index.contains_key(template.name) {
                index
            } else {
                index.insert(template.name, template)
            };
            &&& after.contains_key(wanted) <==> (index.contains_key(wanted) || wanted
                == template.name)
            &&& after.contains_key(wanted) ==> after[wanted] == if index.contains_key(wanted) {
                index[wanted]
            } else {
                template
            }
        }),
{
}

} // verus!
