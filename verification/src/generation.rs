//! The generation engine: a loaded template with its resolved variables,
//! the per-entry decisions of the tree renderer, hook gating, and the
//! cleanup rules.  All file-system work is left to the caller: the engine
//! decides, the caller walks, reads, writes and deletes.

use vstd::prelude::*;

use crate::definition::{
    gate_passes, default_matches, spec_hooks_paths, DefinitionView, Hook, HookView,
    TemplateDefinition, Variable, VariableView,
};
use crate::engine::{
    glob_check, glob_match, glob_matches, glob_valid, no_tera_delims, opt_str_view,
    render_one_off_template,
};
use crate::errors::{new_error, Error, ErrorKind};
use crate::text::{dollar_replace, eq_str, no_char, path_within, replace_dollars, starts_with_str};
use crate::utils::{contains_nul, is_binary};
use crate::value::{Value, ValueView};
use crate::varmap::VarMap;

verus! {

/// Contains information about a given hook: what's the original path and
/// what's the path to the templated version, staged by the caller.
#[derive(Debug)]
pub struct HookFile {
    hook: Hook,
    /// Path to the hook file after templating.
    path: String,
}

/// The mathematical content of a `HookFile`.
pub ghost struct HookFileView {
    pub hook: HookView,
    pub path: Seq<char>,
}

impl View for HookFile {
    type V = HookFileView;

    closed spec fn view(&self) -> HookFileView {
        HookFileView { hook: self.hook@, path: self.path@ }
    }
}

impl HookFile {
    /// Pair a hook with the path its templated copy was staged at.
    pub fn from_parts(hook: Hook, path: String) -> (r: HookFile)
        ensures
            r@.hook == hook@,
            r@.path == path@,
    {
        HookFile { hook, path }
    }

    /// The hook's display name.
    pub fn name(&self) -> (r: &str)
        ensures
            r@ == self@.hook.name,
    {
        self.hook.name.as_str()
    }

    /// The hook original path in the template folder.
    pub fn original_path(&self) -> (r: &str)
        ensures
            r@ == self@.hook.path,
    {
        self.hook.path.as_str()
    }

    /// The rendered hook file path: this is what you want to execute.
    pub fn path(&self) -> (r: &str)
        ensures
            r@ == self@.path,
    {
        self.path.as_str()
    }
}

/// The first declared variable with the given name.
pub open spec fn find_variable(vars: Seq<VariableView>, name: Seq<char>) -> Option<VariableView>
    decreases vars.len(),
{
    if vars.len() == 0 {
        None
    } else if vars[0].name == name {
        Some(vars[0])
    } else {
        find_variable(vars.drop_first(), name)
    }
}

proof fn lemma_find_variable_found(vars: Seq<VariableView>, i: int)
    requires
        0 <= i < vars.len(),
        forall|j: int| 0 <= j < i ==> (#[trigger] vars[j].name) != vars[i].name,
    ensures
        find_variable(vars, vars[i].name) == Some(vars[i]),
    decreases vars.len(),
{
    if i > 0 {
        let rest = vars.drop_first();
        assert(forall|j: int| 0 <= j < rest.len() ==> (#[trigger] rest[j].name) == vars[j + 1].name);
        lemma_find_variable_found(rest, i - 1);
    }
}

proof fn lemma_find_variable_absent(vars: Seq<VariableView>, name: Seq<char>)
    requires
        forall|j: int| 0 <= j < vars.len() ==> (#[trigger] vars[j].name) != name,
    ensures
        find_variable(vars, name) is None,
    decreases vars.len(),
{
    if vars.len() > 0 {
        let rest = vars.drop_first();
        assert(forall|j: int| 0 <= j < rest.len() ==> (#[trigger] rest[j].name) == vars[j + 1].name);
        lemma_find_variable_absent(rest, name);
    }
}

/// The current template being generated.
#[derive(Debug)]
pub struct Template {
    /// The parsed template definition.
    pub definition: TemplateDefinition,
    /// The variables set by the caller, either interactively or through the
    /// library.
    variables: VarMap,
    /// Local path to the template folder.
    path: String,
}

/// The mathematical content of a `Template`.
pub ghost struct TemplateView {
    pub definition: DefinitionView,
    pub variables: Map<Seq<char>, ValueView>,
    pub path: Seq<char>,
}

impl View for Template {
    type V = TemplateView;

    closed spec fn view(&self) -> TemplateView {
        TemplateView { definition: self.definition@, variables: self.variables@, path: self.path@ }
    }
}

impl Template {
    /// Build a template from an already-loaded definition and the local
    /// path of the template folder.  No variables are set yet.
    pub fn from_parts(definition: TemplateDefinition, path: String) -> (r: Template)
        ensures
            r@.definition == definition@,
            r@.variables == Map::<Seq<char>, ValueView>::empty(),
            r@.path == path@,
    {
        Template { definition, variables: VarMap::new(), path }
    }

    /// The local path of the template folder.
    pub fn path(&self) -> (r: &str)
        ensures
            r@ == self@.path,
    {
        self.path.as_str()
    }

    /// The variables resolved so far.
    pub fn variables(&self) -> (r: &VarMap)
        ensures
            r@ == self@.variables,
    {
        &self.variables
    }

    fn get_variable_by_name<'a>(&'a self, name: &str) -> (r: Option<&'a Variable>)
        ensures
            match r {
                Some(v) => find_variable(self@.definition.variables, name@) == Some(v@),
                None => find_variable(self@.definition.variables, name@) is None,
            },
    {
        let ghost vs = self@.definition.variables;
        let mut i: usize = 0;
        let n = self.definition.variables.len();
        while i < n
            invariant
                i <= n,
                n == self.definition.variables@.len(),
                vs == self@.definition.variables,
                forall|j: int| 0 <= j < i ==> (#[trigger] vs[j].name) != name@,
            decreases n - i,
        {
            let v = &self.definition.variables[i];
            if eq_str(v.name.as_str(), name) {
                proof {
                    lemma_find_variable_found(vs, i as int);
                }
                return Some(v);
            }
            i += 1;
        }
        proof {
            lemma_find_variable_absent(vs, name@);
        }
        None
    }

    /// The default value of the named variable, with a templated string
    /// default rendered against the values resolved so far.
    pub fn get_default_for(&self, name: &str, vals: &VarMap) -> (r: Result<Value, Error>)
        ensures
            r matches Ok(v) ==> (find_variable(self@.definition.variables, name@) matches Some(vd)
                && default_matches(vd, v@)),
            r matches Err(e) ==> match e.kind {
                ErrorKind::InvalidVariableName(n) => find_variable(
                    self@.definition.variables,
                    name@,
                ) is None && n@ == name@,
                ErrorKind::Tera { .. } => find_variable(self@.definition.variables, name@)
                    matches Some(vd) && vd.default matches ValueView::Str(s) && !no_tera_delims(s),
                _ => false,
            },
    {
        let var = match self.get_variable_by_name(name) {
            Some(v) => v,
            None => {
                return Err(new_error(ErrorKind::InvalidVariableName(name.to_owned())));
            },
        };
        match &var.default {
            Value::Integer(i) => Ok(Value::Integer(*i)),
            Value::Boolean(b) => Ok(Value::Boolean(*b)),
            Value::String(s) => {
                match render_one_off_template(s.as_str(), vals, None) {
                    Ok(rendered) => Ok(Value::String(rendered)),
                    Err(e) => Err(e),
                }
            },
        }
    }

    /// Set one variable, which must be declared by the definition.
    pub fn insert_variable(&mut self, name: &str, value: Value) -> (r: Result<(), Error>)
        ensures
            r is Ok <==> find_variable(old(self)@.definition.variables, name@) is Some,
            r is Ok ==> final(self)@.variables == old(self)@.variables.insert(name@, value@),
            r matches Err(e) ==> final(self)@ == old(self)@ && (e.kind
                matches ErrorKind::InvalidVariableName(n) && n@ == name@),
            final(self)@.definition == old(self)@.definition,
            final(self)@.path == old(self)@.path,
    {
        match self.get_variable_by_name(name) {
            Some(_) => {},
            None => {
                return Err(new_error(ErrorKind::InvalidVariableName(name.to_owned())));
            },
        }
        self.variables.insert(name.to_owned(), value);
        Ok(())
    }

    /// Overwrite the variables for the template.  Every name must be
    /// declared by the definition; otherwise nothing changes and the first
    /// unknown name is reported.
    pub fn set_variables(&mut self, variables: VarMap) -> (r: Result<(), Error>)
        ensures
            r is Ok <==> forall|n: Seq<char>|
                variables@.dom().contains(n) ==> find_variable(
                    old(self)@.definition.variables,
                    n,
                ) is Some,
            r is Ok ==> final(self)@.variables == variables@,
            r matches Err(e) ==> final(self)@ == old(self)@ && e.kind
                matches ErrorKind::InvalidVariableName(_),
            final(self)@.definition == old(self)@.definition,
            final(self)@.path == old(self)@.path,
    {
        let mut i: usize = 0;
        let n = variables.len();
        while i < n
            invariant
                i <= n,
                n == variables.pairs().len(),
                self == old(self),
                forall|k: int|
                    0 <= k < i ==> find_variable(
                        self@.definition.variables,
                        (#[trigger] variables.pairs()[k]).0,
                    ) is Some,
            decreases n - i,
        {
            let e = variables.entry_at(i);
            match self.get_variable_by_name(e.0.as_str()) {
                Some(_) => {},
                None => {
                    proof {
                        variables.lemma_key_iff_pair(e.0@);
                    }
                    return Err(new_error(ErrorKind::InvalidVariableName(e.0.clone())));
                },
            }
            i += 1;
        }
        proof {
            assert forall|nm: Seq<char>| variables@.dom().contains(nm) implies find_variable(
                self@.definition.variables,
                nm,
            ) is Some by {
                variables.lemma_key_iff_pair(nm);
            }
        }
        self.variables = variables;
        Ok(())
    }

    /// Whether the named variable would be asked, given the values already
    /// set on this template: a variable without a gate always is; one whose
    /// gating variable is unset or differs never is.
    pub fn should_ask_variable(&self, name: &str) -> (r: Result<bool, Error>)
        ensures
            r matches Ok(b) ==> (find_variable(self@.definition.variables, name@) matches Some(vd)
                && b == gate_passes(vd.only_if, self@.variables)),
            r matches Err(e) ==> find_variable(self@.definition.variables, name@) is None && (e.kind
                matches ErrorKind::InvalidVariableName(n) && n@ == name@),
    {
        let var = match self.get_variable_by_name(name) {
            Some(v) => v,
            None => {
                return Err(new_error(ErrorKind::InvalidVariableName(name.to_owned())));
            },
        };
        Ok(crate::definition::gate_allows(&var.only_if, &self.variables))
    }
}

/// The hooks whose gate passes against a mapping, among the first `i`, in
/// manifest order.
pub open spec fn active_hooks_upto(
    hooks: Seq<HookView>,
    m: Map<Seq<char>, ValueView>,
    i: int,
) -> Seq<HookView>
    decreases i,
{
    if i <= 0 || i > hooks.len() {
        Seq::empty()
    } else {
        active_hooks_upto(hooks, m, i - 1) + (if gate_passes(hooks[i - 1].only_if, m) {
            seq![hooks[i - 1]]
        } else {
            Seq::<HookView>::empty()
        })
    }
}

/// The hooks whose gate passes against a mapping, in manifest order.
pub open spec fn spec_active_hooks(hooks: Seq<HookView>, m: Map<Seq<char>, ValueView>) -> Seq<
    HookView,
> {
    active_hooks_upto(hooks, m, hooks.len() as int)
}

impl Template {
    fn active_hooks(&self, hooks: &Vec<Hook>) -> (r: Vec<Hook>)
        ensures
            r.deep_view() == spec_active_hooks(hooks.deep_view(), self@.variables),
    {
        let ghost hv = hooks.deep_view();
        let mut out: Vec<Hook> = Vec::new();
        let mut i: usize = 0;
        let n = hooks.len();
        proof {
            assert(out.deep_view() =~= active_hooks_upto(hv, self@.variables, 0));
        }
        while i < n
            invariant
                i <= n,
                n == hooks@.len(),
                hv == hooks.deep_view(),
                out.deep_view() == active_hooks_upto(hv, self@.variables, i as int),
            decreases n - i,
        {
            let hook = &hooks[i];
            let ghost before = out.deep_view();
            // First we check whether we need to run it or not.
            let pass = crate::definition::gate_allows(&hook.only_if, &self.variables);
            proof {
                assert(pass == gate_passes(hv[i as int].only_if, self@.variables));
            }
            if pass {
                let copy = hook.duplicate();
                let ghost cv = copy@;
                out.push(copy);
                proof {
                    assert(out.deep_view() =~= before.push(cv));
                }
            }
            proof {
                assert(out.deep_view() =~= active_hooks_upto(hv, self@.variables, i + 1 as int));
            }
            i += 1;
        }
        out
    }

    /// The pre-generation hooks that must run, given the final variables.
    /// The caller stages each one: it reads the file, has `render_hook`
    /// template it, writes it executable somewhere private, and runs it.
    pub fn active_pre_gen_hooks(&self) -> (r: Vec<Hook>)
        ensures
            r.deep_view() == spec_active_hooks(
                self@.definition.pre_gen_hooks,
                self@.variables,
            ),
    {
        self.active_hooks(&self.definition.pre_gen_hooks)
    }

    /// The post-generation hooks that must run, given the final variables.
    pub fn active_post_gen_hooks(&self) -> (r: Vec<Hook>)
        ensures
            r.deep_view() == spec_active_hooks(
                self@.definition.post_gen_hooks,
                self@.variables,
            ),
    {
        self.active_hooks(&self.definition.post_gen_hooks)
    }

    /// Render a hook's file content against the final variables; a failure
    /// is tagged with the hook's source path.
    pub fn render_hook(&self, hook: &Hook, content: &str) -> (r: Result<String, Error>)
        ensures
            no_tera_delims(content@) ==> (r matches Ok(s) && s@ == content@),
            r matches Err(e) ==> (e.kind matches ErrorKind::Tera { msg: _, path: p }
                && opt_str_view(p) == Some(hook@.path)),
    {
        render_one_off_template(content, &self.variables, Some(hook.path.clone()))
    }
}

/// Whether a render may turn `tpl` into `out`: text without delimiters
/// renders to itself; anything else may render to any string.
pub open spec fn rendered_ok(tpl: Seq<char>, out: Seq<char>) -> bool {
    no_tera_delims(tpl) ==> out == tpl
}

/// Whether some pattern of the list matches the path.
pub open spec fn matches_any(pats: Seq<Seq<char>>, path: Seq<char>) -> bool {
    exists|k: int| 0 <= k < pats.len() && glob_matches(#[trigger] pats[k], path)
}

/// Whether a rendered pattern list corresponds to the raw
/// copy-without-render globs: same length, each the render of its source,
/// each compiling.
pub open spec fn pats_ok(raw: Seq<Seq<char>>, pats: Seq<Seq<char>>) -> bool {
    &&& pats.len() == raw.len()
    &&& forall|k: int| 0 <= k < pats.len() ==> rendered_ok(raw[k], #[trigger] pats[k])
    &&& forall|k: int| 0 <= k < pats.len() ==> glob_valid(#[trigger] pats[k])
}

impl Template {
    /// Render the copy-without-render globs into concrete patterns, once
    /// for the whole run, failing fast with an error naming the malformed
    /// pattern before and after rendering.
    pub fn prerender_copy_patterns(&self) -> (r: Result<Vec<String>, Error>)
        ensures
            r matches Ok(ps) ==> pats_ok(self@.definition.copy_without_render, ps.deep_view()),
            r matches Err(e) ==> (e.kind is Tera || e.kind is InvalidGlobPattern),
            (forall|k: int|
                0 <= k < self@.definition.copy_without_render.len() ==> no_tera_delims(
                    #[trigger] self@.definition.copy_without_render[k],
                ) && glob_valid(self@.definition.copy_without_render[k])) ==> r is Ok,
    {
        let ghost raw = self@.definition.copy_without_render;
        let mut out: Vec<String> = Vec::new();
        let mut i: usize = 0;
        let n = self.definition.copy_without_render.len();
        while i < n
            invariant
                i <= n,
                n == self.definition.copy_without_render@.len(),
                raw == self@.definition.copy_without_render,
                out.deep_view().len() == i,
                forall|k: int|
                    0 <= k < i ==> rendered_ok(raw[k], #[trigger] out.deep_view()[k]),
                forall|k: int| 0 <= k < i ==> glob_valid(#[trigger] out.deep_view()[k]),
            decreases n - i,
        {
            let s = &self.definition.copy_without_render[i];
            proof {
                assert(s@ == raw[i as int]);
            }
            let rendered = match render_one_off_template(s.as_str(), &self.variables, None) {
                Ok(p) => p,
                Err(e) => {
                    proof {
                        if forall|k: int|
                            0 <= k < raw.len() ==> no_tera_delims(#[trigger] raw[k]) && glob_valid(
                                raw[k],
                            ) {
                            assert(no_tera_delims(raw[i as int]));
                            assert(false);
                        }
                    }
                    return Err(e);
                },
            };
            match glob_check(rendered.as_str()) {
                Ok(_) => {
                    let ghost pre_dv = out.deep_view();
                    let ghost rv = rendered@;
                    proof {
                        assert(rendered_ok(raw[i as int], rv));
                    }
                    out.push(rendered);
                    proof {
                        assert(out.deep_view() =~= pre_dv.push(rv));
                    }
                },
                Err(msg) => {
                    proof {
                        if forall|k: int|
                            0 <= k < raw.len() ==> no_tera_delims(#[trigger] raw[k]) && glob_valid(
                                raw[k],
                            ) {
                            assert(no_tera_delims(raw[i as int]));
                            assert(rendered@ == raw[i as int]);
                            assert(false);
                        }
                    }
                    let pattern_after_rendering = if eq_str(s.as_str(), rendered.as_str()) {
                        None
                    } else {
                        Some(rendered)
                    };
                    return Err(new_error(ErrorKind::InvalidGlobPattern {
                        pattern_before_rendering: s.clone(),
                        pattern_after_rendering,
                        msg,
                    }));
                },
            }
            i += 1;
        }
        Ok(out)
    }
}

/// Whether the version-control check skips an entry: its path relative to
/// the configured template subdirectory starts with a `.git` component.
pub open spec fn spec_git_skip(srel: Seq<char>, is_dir: bool) -> bool {
    ".git/"@.is_prefix_of(srel) || (is_dir && srel == ".git"@)
}

/// An entry's path relative to the configured subdirectory, when one is
/// set; otherwise the path itself.
pub open spec fn start_rel(directory: Option<Seq<char>>, rel: Seq<char>) -> Seq<char> {
    match directory {
        None => rel,
        Some(d) => if rel == d {
            Seq::empty()
        } else if (d + seq!['/']).is_prefix_of(rel) {
            rel.skip(d.len() as int + 1)
        } else {
            rel
        },
    }
}

/// Whether the tree renderer excludes an entry from the output: the
/// template root itself, the manifest file, anything whose canonical path
/// falls inside the output directory, version-control metadata, entries
/// covered by an ignore rule, and hook files.
pub open spec fn spec_skip_entry(
    def: DefinitionView,
    rel: Seq<char>,
    is_dir: bool,
    inside_output: bool,
) -> bool {
    ||| rel.len() == 0
    ||| rel == "template.toml"@
    ||| inside_output
    ||| spec_git_skip(start_rel(def.directory, rel), is_dir)
    ||| exists|k: int| 0 <= k < def.ignore.len() && (#[trigger] def.ignore[k]).is_prefix_of(rel)
    ||| exists|k: int|
        0 <= k < spec_hooks_paths(def).len() && (#[trigger] spec_hooks_paths(def)[k]) == rel
}

fn git_check(srel: &str, is_dir: bool) -> (r: bool)
    ensures
        r == spec_git_skip(srel@, is_dir),
{
    starts_with_str(srel, ".git/") || (is_dir && eq_str(srel, ".git"))
}

impl Template {
    /// Whether the tree renderer excludes this entry from the output.  The
    /// caller supplies the entry's path relative to the template root,
    /// whether it is a directory, and whether its canonical path falls
    /// inside the output directory.
    pub fn should_skip_entry(&self, rel_path: &str, is_dir: bool, inside_output: bool) -> (r: bool)
        ensures
            r == spec_skip_entry(self@.definition, rel_path@, is_dir, inside_output),
    {
        proof {
            reveal_strlit(".git/");
            reveal_strlit(".git");
        }
        if rel_path.is_empty() {
            return true;
        }
        if eq_str(rel_path, "template.toml") {
            return true;
        }
        if inside_output {
            return true;
        }
        // Version-control metadata is judged relative to the configured
        // subdirectory, the root the walk started from.
        let git = match &self.definition.directory {
            Some(d) => {
                if eq_str(rel_path, d.as_str()) {
                    false
                } else {
                    let mut dslash = d.clone();
                    dslash.push('/');
                    proof {
                        assert(dslash@ =~= d@ + seq!['/']);
                    }
                    if starts_with_str(rel_path, dslash.as_str()) {
                        let rl: usize = rel_path.unicode_len();
                        let from: usize = d.unicode_len() + 1;
                        let srel = rel_path.substring_char(from, rl);
                        proof {
                            assert(srel@ =~= rel_path@.skip(d@.len() as int + 1));
                        }
                        git_check(srel, is_dir)
                    } else {
                        git_check(rel_path, is_dir)
                    }
                }
            },
            None => git_check(rel_path, is_dir),
        };
        if git {
            return true;
        }
        let mut i: usize = 0;
        let n = self.definition.ignore.len();
        while i < n
            invariant
                i <= n,
                n == self.definition.ignore@.len(),
                n == self@.definition.ignore.len(),
                forall|k: int|
                    0 <= k < i ==> !(#[trigger] self@.definition.ignore[k]).is_prefix_of(
                        rel_path@,
                    ),
            decreases n - i,
        {
            proof {
                assert(self@.definition.ignore[i as int] == self.definition.ignore@[i as int]@);
            }
            if starts_with_str(rel_path, self.definition.ignore[i].as_str()) {
                return true;
            }
            i += 1;
        }
        // We automatically ignore hook files.
        let hooks = self.definition.all_hooks_paths();
        let mut j: usize = 0;
        let m = hooks.len();
        while j < m
            invariant
                j <= m,
                m == hooks@.len(),
                hooks.deep_view() == spec_hooks_paths(self@.definition),
                forall|k: int| 0 <= k < j ==> (#[trigger] hooks.deep_view()[k]) != rel_path@,
            decreases m - j,
        {
            proof {
                assert(hooks.deep_view()[j as int] == hooks@[j as int]@);
            }
            if eq_str(rel_path, hooks[j].as_str()) {
                return true;
            }
            j += 1;
        }
        false
    }
}

/// One entry of the template tree, as the caller walked it: its path
/// relative to the template root, whether it is a directory, whether its
/// canonical path falls inside the output directory, and its raw bytes
/// (empty for directories).
#[derive(Debug)]
pub struct TreeEntry {
    pub rel_path: String,
    pub is_dir: bool,
    pub inside_output: bool,
    pub contents: Vec<u8>,
}

/// The mathematical content of a `TreeEntry`.
pub ghost struct TreeEntryView {
    pub rel_path: Seq<char>,
    pub is_dir: bool,
    pub inside_output: bool,
    pub contents: Seq<u8>,
}

impl View for TreeEntry {
    type V = TreeEntryView;

    open spec fn view(&self) -> TreeEntryView {
        TreeEntryView {
            rel_path: self.rel_path@,
            is_dir: self.is_dir,
            inside_output: self.inside_output,
            contents: self.contents@,
        }
    }
}

impl DeepView for TreeEntry {
    type V = TreeEntryView;

    open spec fn deep_view(&self) -> TreeEntryView {
        self.view()
    }
}

/// What the renderer decides to do with one entry of the template tree.
#[derive(Debug)]
pub enum EntryAction {
    /// Nothing: the entry is excluded from the output.
    Skip,
    /// Create the directory at this output-relative path.
    MakeDir { dest: String },
    /// Copy the file's bytes unrendered to this output-relative path.
    CopyRaw { dest: String },
    /// Write this rendered text to this output-relative path.
    WriteRendered { dest: String, contents: String },
}

/// The mathematical content of an `EntryAction`.
pub ghost enum EntryActionView {
    Skip,
    MakeDir { dest: Seq<char> },
    CopyRaw { dest: Seq<char> },
    WriteRendered { dest: Seq<char>, contents: Seq<char> },
}

impl View for EntryAction {
    type V = EntryActionView;

    open spec fn view(&self) -> EntryActionView {
        match self {
            EntryAction::Skip => EntryActionView::Skip,
            EntryAction::MakeDir { dest } => EntryActionView::MakeDir { dest: dest@ },
            EntryAction::CopyRaw { dest } => EntryActionView::CopyRaw { dest: dest@ },
            EntryAction::WriteRendered { dest, contents } => EntryActionView::WriteRendered {
                dest: dest@,
                contents: contents@,
            },
        }
    }
}

impl DeepView for EntryAction {
    type V = EntryActionView;

    open spec fn deep_view(&self) -> EntryActionView {
        self.view()
    }
}

/// Whether a destination may come from rendering the relative path and
/// translating its `$$` escapes.
pub open spec fn dest_ok(rel: Seq<char>, dest: Seq<char>) -> bool {
    exists|p: Seq<char>| #[trigger] rendered_ok(rel, p) && dest == dollar_replace(p)
}

/// What the renderer may decide for one entry it does not skip: a directory
/// is created at its rendered path; a file holding a NUL byte, or whose
/// destination matches a copy-without-render pattern, is copied unrendered;
/// any other file is decoded as text and rendered.
pub open spec fn entry_action_ok(
    e: TreeEntryView,
    pats: Seq<Seq<char>>,
    a: EntryActionView,
) -> bool {
    if e.is_dir {
        a matches EntryActionView::MakeDir { dest } && dest_ok(e.rel_path, dest)
    } else {
        match a {
            EntryActionView::CopyRaw { dest } => dest_ok(e.rel_path, dest) && (contains_nul(
                e.contents,
            ) || matches_any(pats, dest)),
            EntryActionView::WriteRendered { dest, contents } => {
                &&& dest_ok(e.rel_path, dest)
                &&& !contains_nul(e.contents)
                &&& !matches_any(pats, dest)
                &&& vstd::utf8::valid_utf8(e.contents)
                &&& rendered_ok(vstd::utf8::decode_utf8(e.contents), contents)
            },
            _ => false,
        }
    }
}

/// Whether a template tree holds no placeholders anywhere the renderer
/// looks: every copy-without-render pattern is plain and compiles, every
/// relative path is plain, and every file is binary or plain valid text.
/// Such a tree always generates.
pub open spec fn plain_tree(def: DefinitionView, entries: Seq<TreeEntryView>) -> bool {
    &&& forall|k: int|
        0 <= k < def.copy_without_render.len() ==> no_tera_delims(
            #[trigger] def.copy_without_render[k],
        ) && glob_valid(def.copy_without_render[k])
    &&& forall|k: int|
        0 <= k < entries.len() ==> no_tera_delims((#[trigger] entries[k]).rel_path)
    &&& forall|k: int|
        0 <= k < entries.len() ==> ((#[trigger] entries[k]).is_dir || contains_nul(
            entries[k].contents,
        ) || (vstd::utf8::valid_utf8(entries[k].contents) && no_tera_delims(
            vstd::utf8::decode_utf8(entries[k].contents),
        )))
}

fn matches_any_exec(pats: &Vec<String>, path: &str) -> (r: bool)
    requires
        forall|k: int| 0 <= k < pats.deep_view().len() ==> glob_valid(#[trigger] pats.deep_view()[k]),
    ensures
        r == matches_any(pats.deep_view(), path@),
{
    let mut i: usize = 0;
    let n = pats.len();
    while i < n
        invariant
            i <= n,
            n == pats@.len(),
            forall|k: int|
                0 <= k < pats.deep_view().len() ==> glob_valid(#[trigger] pats.deep_view()[k]),
            forall|k: int| 0 <= k < i ==> !glob_matches(#[trigger] pats.deep_view()[k], path@),
        decreases n - i,
    {
        proof {
            assert(pats.deep_view()[i as int] == pats@[i as int]@);
        }
        if glob_match(pats[i].as_str(), path) {
            return true;
        }
        i += 1;
    }
    false
}

impl Template {
    /// Plan the whole tree: decide, for each entry the caller walked, how
    /// it must appear in the output.  The caller then performs the actions
    /// in order, joining each destination onto the output root.
    pub fn plan_tree(&self, entries: &Vec<TreeEntry>) -> (r: Result<Vec<EntryAction>, Error>)
        ensures
            r matches Ok(plan) ==> {
                &&& plan@.len() == entries@.len()
                &&& (forall|k: int|
                    0 <= k < entries@.len() ==> (spec_skip_entry(
                        self@.definition,
                        (#[trigger] entries.deep_view()[k]).rel_path,
                        entries.deep_view()[k].is_dir,
                        entries.deep_view()[k].inside_output,
                    ) <==> plan.deep_view()[k] is Skip))
                &&& exists|pats: Seq<Seq<char>>|
                    #[trigger] pats_ok(self@.definition.copy_without_render, pats) && (forall|
                        k: int,
                    |
                        0 <= k < entries@.len() && !(plan.deep_view()[k] is Skip)
                            ==> entry_action_ok(
                            (#[trigger] entries.deep_view()[k]),
                            pats,
                            plan.deep_view()[k],
                        ))
            },
            r matches Err(e) ==> (e.kind is Tera || e.kind is InvalidGlobPattern),
            plain_tree(self@.definition, entries.deep_view()) ==> r is Ok,
    {
        let ghost def = self@.definition;
        let ghost plain = plain_tree(def, entries.deep_view());
        let pats = match self.prerender_copy_patterns() {
            Ok(p) => p,
            Err(e) => {
                proof {
                    if plain {
                        assert(false);
                    }
                }
                return Err(e);
            },
        };
        let ghost pv = pats.deep_view();
        let mut plan: Vec<EntryAction> = Vec::new();
        let mut i: usize = 0;
        let n = entries.len();
        while i < n
            invariant
                i <= n,
                n == entries@.len(),
                def == self@.definition,
                plain == plain_tree(def, entries.deep_view()),
                pv == pats.deep_view(),
                pats_ok(def.copy_without_render, pv),
                plan@.len() == i,
                forall|k: int|
                    0 <= k < i ==> (spec_skip_entry(
                        def,
                        (#[trigger] entries.deep_view()[k]).rel_path,
                        entries.deep_view()[k].is_dir,
                        entries.deep_view()[k].inside_output,
                    ) <==> plan.deep_view()[k] is Skip),
                forall|k: int|
                    0 <= k < i && !(plan.deep_view()[k] is Skip) ==> entry_action_ok(
                        (#[trigger] entries.deep_view()[k]),
                        pv,
                        plan.deep_view()[k],
                    ),
            decreases n - i,
        {
            let entry = &entries[i];
            proof {
                assert(entries.deep_view()[i as int] == entry@);
            }
            if self.should_skip_entry(entry.rel_path.as_str(), entry.is_dir, entry.inside_output) {
                plan.push(EntryAction::Skip);
                i += 1;
                continue ;
            }
            let rendered_path = match render_one_off_template(
                entry.rel_path.as_str(),
                &self.variables,
                None,
            ) {
                Ok(p) => p,
                Err(e) => {
                    proof {
                        if plain {
                            assert(no_tera_delims(entry@.rel_path));
                            assert(false);
                        }
                    }
                    return Err(e);
                },
            };
            let dest = replace_dollars(rendered_path.as_str());
            proof {
                assert(rendered_ok(entry@.rel_path, rendered_path@) && dest@ == dollar_replace(
                    rendered_path@,
                ));
                assert(dest_ok(entry@.rel_path, dest@));
            }
            if entry.is_dir {
                plan.push(EntryAction::MakeDir { dest });
                i += 1;
                continue ;
            }
            // Only non-binary files not matching the copy-without-render
            // patterns go through the template engine.
            let no_render = is_binary(entry.contents.as_slice()) || matches_any_exec(
                &pats,
                dest.as_str(),
            );
            if no_render {
                plan.push(EntryAction::CopyRaw { dest });
                i += 1;
                continue ;
            }
            match core::str::from_utf8(entry.contents.as_slice()) {
                Ok(text) => {
                    match render_one_off_template(
                        text,
                        &self.variables,
                        Some(entry.rel_path.clone()),
                    ) {
                        Ok(contents) => {
                            plan.push(EntryAction::WriteRendered { dest, contents });
                        },
                        Err(e) => {
                            proof {
                                if plain {
                                    assert(no_tera_delims(
                                        vstd::utf8::decode_utf8(entry@.contents),
                                    ));
                                    assert(false);
                                }
                            }
                            return Err(e);
                        },
                    }
                },
                Err(_) => {
                    proof {
                        if plain {
                            assert(vstd::utf8::valid_utf8(entry@.contents));
                            assert(false);
                        }
                    }
                    return Err(new_error(ErrorKind::Tera {
                        msg: "File is not valid UTF-8".to_owned(),
                        path: Some(entry.rel_path.clone()),
                    }));
                },
            }
            i += 1;
        }
        Ok(plan)
    }
}

/// The raw deletion patterns of the cleanup rules whose gate matches the
/// final variables, among the first `i` rules, in rule order.
pub open spec fn cleanup_sources_upto(
    rules: Seq<crate::definition::CleanupView>,
    m: Map<Seq<char>, ValueView>,
    i: int,
) -> Seq<Seq<char>>
    decreases i,
{
    if i <= 0 || i > rules.len() {
        Seq::empty()
    } else {
        cleanup_sources_upto(rules, m, i - 1) + (if m.dom().contains(rules[i - 1].name)
            && m[rules[i - 1].name] == rules[i - 1].value {
            rules[i - 1].paths
        } else {
            Seq::<Seq<char>>::empty()
        })
    }
}

/// The raw deletion patterns of the cleanup rules whose gate matches the
/// final variables, in rule order.
pub open spec fn spec_cleanup_sources(
    rules: Seq<crate::definition::CleanupView>,
    m: Map<Seq<char>, ValueView>,
) -> Seq<Seq<char>> {
    cleanup_sources_upto(rules, m, rules.len() as int)
}

/// Whether every cleanup path pattern is plain text.
pub open spec fn plain_cleanup(rules: Seq<crate::definition::CleanupView>) -> bool {
    forall|k: int, l: int|
        0 <= k < rules.len() && 0 <= l < (#[trigger] rules[k].paths).len() ==> no_tera_delims(
            #[trigger] rules[k].paths[l],
        )
}

impl Template {
    /// Render the deletion candidates of every cleanup rule whose gating
    /// variable resolved to the required value, in rule order.  Each
    /// candidate is an output-relative path pattern; the caller
    /// canonicalizes it and asks `should_delete`.
    pub fn cleanup_candidates(&self) -> (r: Result<Vec<String>, Error>)
        ensures
            r matches Ok(c) ==> {
                let srcs = spec_cleanup_sources(self@.definition.cleanup, self@.variables);
                &&& c@.len() == srcs.len()
                &&& forall|k: int|
                    0 <= k < srcs.len() ==> rendered_ok(srcs[k], #[trigger] c.deep_view()[k])
            },
            r matches Err(e) ==> e.kind is Tera,
            plain_cleanup(self@.definition.cleanup) ==> r is Ok,
    {
        let ghost rules = self@.definition.cleanup;
        let ghost m = self@.variables;
        let mut out: Vec<String> = Vec::new();
        let ghost mut srcs = Seq::<Seq<char>>::empty();
        let mut i: usize = 0;
        let n = self.definition.cleanup.len();
        while i < n
            invariant
                i <= n,
                n == self.definition.cleanup@.len(),
                n == rules.len(),
                rules == self@.definition.cleanup,
                m == self@.variables,
                srcs == cleanup_sources_upto(rules, m, i as int),
                out.deep_view().len() == srcs.len(),
                forall|k: int|
                    0 <= k < srcs.len() ==> rendered_ok(srcs[k], #[trigger] out.deep_view()[k]),
                plain_cleanup(rules) ==> true,
            decreases n - i,
        {
            let rule = &self.definition.cleanup[i];
            proof {
                assert(rule@ == rules[i as int]);
            }
            let pass = match self.variables.get(rule.name.as_str()) {
                Some(val) => val.value_eq(&rule.value),
                None => false,
            };
            if pass {
                let ghost base = srcs;
                let mut j: usize = 0;
                let p = rule.paths.len();
                proof {
                    assert(rules[i as int].paths == rule.paths.deep_view());
                    assert(rules[i as int].paths.len() == rule.paths@.len());
                }
                while j < p
                    invariant
                        j <= p,
                        i < rules.len(),
                        p == rule.paths@.len(),
                        p == rules[i as int].paths.len(),
                        rule@ == rules[i as int],
                        rules == self@.definition.cleanup,
                        m == self@.variables,
                        srcs == base + rules[i as int].paths.subrange(0, j as int),
                        out.deep_view().len() == srcs.len(),
                        forall|k: int|
                            0 <= k < srcs.len() ==> rendered_ok(
                                srcs[k],
                                #[trigger] out.deep_view()[k],
                            ),
                    decreases p - j,
                {
                    let pattern = &rule.paths[j];
                    proof {
                        assert(rules[i as int].paths == rule.paths.deep_view());
                        assert(rule.paths.deep_view()[j as int] == rule.paths@[j as int]@);
                        assert(pattern@ == rules[i as int].paths[j as int]);
                    }
                    match render_one_off_template(pattern.as_str(), &self.variables, None) {
                        Ok(rendered) => {
                            let ghost rv = rendered@;
                            let ghost pre_dv = out.deep_view();
                            let ghost pre_srcs = srcs;
                            proof {
                                assert(rendered_ok(pattern@, rv));
                            }
                            out.push(rendered);
                            proof {
                                srcs = pre_srcs.push(pattern@);
                                assert(out.deep_view() =~= pre_dv.push(rv));
                                assert(base + rules[i as int].paths.subrange(0, j + 1 as int)
                                    =~= srcs);
                            }
                        },
                        Err(e) => {
                            proof {
                                if plain_cleanup(rules) {
                                    assert(no_tera_delims(rules[i as int].paths[j as int]));
                                    assert(false);
                                }
                            }
                            return Err(e);
                        },
                    }
                    j += 1;
                }
                proof {
                    assert(rules[i as int].paths.subrange(0, p as int) =~= rules[i as int].paths);
                    assert(srcs =~= cleanup_sources_upto(rules, m, i + 1 as int));
                }
            } else {
                proof {
                    assert(srcs =~= cleanup_sources_upto(rules, m, i + 1 as int));
                }
            }
            i += 1;
        }
        proof {
            assert(srcs == spec_cleanup_sources(rules, m));
        }
        Ok(out)
    }
}

/// Whether a rendered cleanup candidate is actually deleted: only when it
/// exists and its canonical path still lies inside the output directory.
/// A rendered value escaping the output root — a path traversal — is
/// silently skipped, as is a path with nothing at it.
pub fn should_delete(output_root: &str, canonical: &str, exists_on_disk: bool) -> (r: bool)
    ensures
        r == (exists_on_disk && path_within(output_root@, canonical@)),
{
    exists_on_disk && crate::text::is_path_within(output_root, canonical)
}

/// Law (binary safety): a file holding a NUL byte is always copied
/// unrendered, whatever the copy-without-render patterns say.
pub proof fn lemma_binary_always_copied(e: TreeEntryView, pats: Seq<Seq<char>>, a: EntryActionView)
    requires
        entry_action_ok(e, pats, a),
        !e.is_dir,
        contains_nul(e.contents),
    ensures
        a is CopyRaw,
{
}

/// Law (copy-without-render): a file that the renderer decides to template
/// matches none of the rendered copy-without-render patterns; one whose
/// destination matches some pattern is copied unrendered.
pub proof fn lemma_matched_file_never_rendered(
    e: TreeEntryView,
    pats: Seq<Seq<char>>,
    a: EntryActionView,
)
    requires
        entry_action_ok(e, pats, a),
        !e.is_dir,
    ensures
        a matches EntryActionView::WriteRendered { dest, contents: _ } ==> !matches_any(
            pats,
            dest,
        ),
{
}

/// Law (round-trip rendering): a planned tree without placeholders — no
/// delimiters or `$` escapes in any path, every file binary or plain text —
/// reproduces its source exactly: every kept entry lands at its own source
/// path, and every rendered file carries its decoded source bytes
/// unchanged.  What the plan leaves out is exactly what `spec_skip_entry`
/// excludes: the manifest file and the hook files among them.
pub proof fn lemma_plain_plan_round_trip(
    entries: Seq<TreeEntryView>,
    pats: Seq<Seq<char>>,
    plan: Seq<EntryActionView>,
)
    requires
        plan.len() == entries.len(),
        forall|k: int|
            0 <= k < entries.len() && !(plan[k] is Skip) ==> entry_action_ok(
                #[trigger] entries[k],
                pats,
                plan[k],
            ),
        forall|k: int|
            0 <= k < entries.len() ==> no_tera_delims((#[trigger] entries[k]).rel_path) && no_char(
                entries[k].rel_path,
                '$',
            ),
        forall|k: int|
            0 <= k < entries.len() && !(#[trigger] entries[k]).is_dir ==> (contains_nul(
                entries[k].contents,
            ) || (vstd::utf8::valid_utf8(entries[k].contents) && no_tera_delims(
                vstd::utf8::decode_utf8(entries[k].contents),
            ))),
    ensures
        forall|k: int|
            0 <= k < entries.len() ==> match #[trigger] plan[k] {
                EntryActionView::Skip => true,
                EntryActionView::MakeDir { dest } => dest == entries[k].rel_path,
                EntryActionView::CopyRaw { dest } => dest == entries[k].rel_path,
                EntryActionView::WriteRendered { dest, contents } => dest == entries[k].rel_path
                    && contents == vstd::utf8::decode_utf8(entries[k].contents),
            },
{
    assert forall|k: int| 0 <= k < entries.len() implies match #[trigger] plan[k] {
        EntryActionView::Skip => true,
        EntryActionView::MakeDir { dest } => dest == entries[k].rel_path,
        EntryActionView::CopyRaw { dest } => dest == entries[k].rel_path,
        EntryActionView::WriteRendered { dest, contents } => dest == entries[k].rel_path
            && contents == vstd::utf8::decode_utf8(entries[k].contents),
    } by {
        if !(plan[k] is Skip) {
            lemma_plain_entry_round_trip(entries[k], pats, plan[k]);
        }
    }
}

/// Law (round-trip): a plain entry — no delimiters anywhere, no `$` in its
/// path — reproduces its source exactly: its destination is its source
/// path, and a rendered file carries its decoded source bytes unchanged.
pub proof fn lemma_plain_entry_round_trip(
    e: TreeEntryView,
    pats: Seq<Seq<char>>,
    a: EntryActionView,
)
    requires
        entry_action_ok(e, pats, a),
        no_tera_delims(e.rel_path),
        no_char(e.rel_path, '$'),
        !e.is_dir ==> (contains_nul(e.contents) || (vstd::utf8::valid_utf8(e.contents)
            && no_tera_delims(vstd::utf8::decode_utf8(e.contents)))),
    ensures
        match a {
            EntryActionView::Skip => false,
            EntryActionView::MakeDir { dest } => dest == e.rel_path,
            EntryActionView::CopyRaw { dest } => dest == e.rel_path,
            EntryActionView::WriteRendered { dest, contents } => dest == e.rel_path && contents
                == vstd::utf8::decode_utf8(e.contents),
        },
{
    crate::text::lemma_dollar_replace_plain(e.rel_path);
    if e.is_dir {
        let dest = a->MakeDir_dest;
        let p = choose|p: Seq<char>| #[trigger] rendered_ok(e.rel_path, p) && dest
            == dollar_replace(p);
        assert(p == e.rel_path);
    } else {
        match a {
            EntryActionView::CopyRaw { dest } => {
                let p = choose|p: Seq<char>| #[trigger] rendered_ok(e.rel_path, p) && dest
                    == dollar_replace(p);
                assert(p == e.rel_path);
            },
            EntryActionView::WriteRendered { dest, contents } => {
                let p = choose|p: Seq<char>| #[trigger] rendered_ok(e.rel_path, p) && dest
                    == dollar_replace(p);
                assert(p == e.rel_path);
            },
            _ => {},
        }
    }
}

} // verus!
