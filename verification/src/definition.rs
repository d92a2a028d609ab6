//! The template definition: the parsed manifest with its variables, hooks,
//! ignore rules and cleanup rules, together with its validation and the
//! computation of default variable values.

use vstd::prelude::*;

use crate::engine::{
    glob_check, glob_compile, glob_valid, no_tera_delims, regex_is_match, regex_check,
    regex_matches, regex_valid, render_one_off_template,
};
use crate::errors::{Error, ErrorKind};
use crate::text::eq_str;
use crate::value::{Value, ValueView};
use crate::varmap::VarMap;

verus! {

/// A condition for a question to be asked.
#[derive(Debug, Clone)]
pub struct Condition {
    pub name: String,
    pub value: Value,
}

/// The mathematical content of a `Condition`.
pub ghost struct CondView {
    pub name: Seq<char>,
    pub value: ValueView,
}

impl View for Condition {
    type V = CondView;

    open spec fn view(&self) -> CondView {
        CondView { name: self.name@, value: self.value@ }
    }
}

impl DeepView for Condition {
    type V = CondView;

    open spec fn deep_view(&self) -> CondView {
        self.view()
    }
}

/// A list of items to be deleted when `name` has `value`.
#[derive(Debug, Clone)]
pub struct Cleanup {
    pub name: String,
    pub value: Value,
    pub paths: Vec<String>,
}

/// The mathematical content of a `Cleanup` rule.
pub ghost struct CleanupView {
    pub name: Seq<char>,
    pub value: ValueView,
    pub paths: Seq<Seq<char>>,
}

impl View for Cleanup {
    type V = CleanupView;

    open spec fn view(&self) -> CleanupView {
        CleanupView { name: self.name@, value: self.value@, paths: self.paths.deep_view() }
    }
}

impl DeepView for Cleanup {
    type V = CleanupView;

    open spec fn deep_view(&self) -> CleanupView {
        self.view()
    }
}

/// A question loaded from the manifest.
#[derive(Debug, Clone)]
pub struct Variable {
    /// The variable name in the final context.
    pub name: String,
    /// A default value is required.
    pub default: Value,
    /// The text asked to the user.
    pub prompt: String,
    /// Only for questions with choices.
    pub choices: Option<Vec<Value>>,
    /// A regex pattern to validate the input.
    pub validation: Option<String>,
    /// Only ask this variable if that condition is true.
    pub only_if: Option<Condition>,
}

/// The mathematical content of a `Variable`.
pub ghost struct VariableView {
    pub name: Seq<char>,
    pub default: ValueView,
    pub prompt: Seq<char>,
    pub choices: Option<Seq<ValueView>>,
    pub validation: Option<Seq<char>>,
    pub only_if: Option<CondView>,
}

impl View for Variable {
    type V = VariableView;

    open spec fn view(&self) -> VariableView {
        VariableView {
            name: self.name@,
            default: self.default@,
            prompt: self.prompt@,
            choices: self.choices.deep_view(),
            validation: self.validation.deep_view(),
            only_if: self.only_if.deep_view(),
        }
    }
}

impl DeepView for Variable {
    type V = VariableView;

    open spec fn deep_view(&self) -> VariableView {
        self.view()
    }
}

/// A hook that should be ran.
#[derive(Debug, Clone)]
pub struct Hook {
    /// The display name for that hook.
    pub name: String,
    /// The path to the executable file, relative to the template root.
    pub path: String,
    /// Only run this hook if that condition is true.
    pub only_if: Option<Condition>,
}

/// The mathematical content of a `Hook`.
pub ghost struct HookView {
    pub name: Seq<char>,
    pub path: Seq<char>,
    pub only_if: Option<CondView>,
}

impl View for Hook {
    type V = HookView;

    open spec fn view(&self) -> HookView {
        HookView { name: self.name@, path: self.path@, only_if: self.only_if.deep_view() }
    }
}

impl DeepView for Hook {
    type V = HookView;

    open spec fn deep_view(&self) -> HookView {
        self.view()
    }
}

impl Hook {
    /// An exact copy of this hook.
    pub fn duplicate(&self) -> (r: Hook)
        ensures
            r@ == self@,
    {
        let only_if = match &self.only_if {
            Some(c) => Some(Condition { name: c.name.clone(), value: c.value.duplicate() }),
            None => None,
        };
        Hook { name: self.name.clone(), path: self.path.clone(), only_if }
    }
}

/// The full template definition we get from loading a manifest.
#[derive(Debug, Clone)]
pub struct TemplateDefinition {
    /// Name of the template.
    pub name: String,
    /// What this template is about.
    pub description: Option<String>,
    /// Template version.
    pub version: Option<String>,
    /// Version of the template schema.
    pub kickstart_version: u8,
    /// Url of the template.
    pub url: Option<String>,
    /// A list of the authors.
    pub authors: Vec<String>,
    /// Some keywords/tags.
    pub keywords: Vec<String>,
    /// The directory in which the template files are.
    /// Useful if a template has its own docs, README, CI and various files.
    pub directory: Option<String>,
    /// Do not copy those directories/files.
    pub ignore: Vec<String>,
    /// Conditionally delete some files/dirs based on generator values.
    pub cleanup: Vec<Cleanup>,
    /// Do not pass those files through the template engine.  Those can be
    /// globs.
    pub copy_without_render: Vec<String>,
    /// Hooks that should be ran after collecting all variables but before
    /// generating the template.
    pub pre_gen_hooks: Vec<Hook>,
    /// Hooks that should be ran after generating the template.
    pub post_gen_hooks: Vec<Hook>,
    /// All the questions for that template.
    pub variables: Vec<Variable>,
}

/// The mathematical content of a `TemplateDefinition`.
pub ghost struct DefinitionView {
    pub name: Seq<char>,
    pub description: Option<Seq<char>>,
    pub version: Option<Seq<char>>,
    pub kickstart_version: u8,
    pub url: Option<Seq<char>>,
    pub authors: Seq<Seq<char>>,
    pub keywords: Seq<Seq<char>>,
    pub directory: Option<Seq<char>>,
    pub ignore: Seq<Seq<char>>,
    pub cleanup: Seq<CleanupView>,
    pub copy_without_render: Seq<Seq<char>>,
    pub pre_gen_hooks: Seq<HookView>,
    pub post_gen_hooks: Seq<HookView>,
    pub variables: Seq<VariableView>,
}

impl View for TemplateDefinition {
    type V = DefinitionView;

    open spec fn view(&self) -> DefinitionView {
        DefinitionView {
            name: self.name@,
            description: self.description.deep_view(),
            version: self.version.deep_view(),
            kickstart_version: self.kickstart_version,
            url: self.url.deep_view(),
            authors: self.authors.deep_view(),
            keywords: self.keywords.deep_view(),
            directory: self.directory.deep_view(),
            ignore: self.ignore.deep_view(),
            cleanup: self.cleanup.deep_view(),
            copy_without_render: self.copy_without_render.deep_view(),
            pre_gen_hooks: self.pre_gen_hooks.deep_view(),
            post_gen_hooks: self.post_gen_hooks.deep_view(),
            variables: self.variables.deep_view(),
        }
    }
}

/// How a value is shown inside a validation message: `quoted` wraps string
/// values in double quotes, the way the manifest file writes them.
pub open spec fn spec_display_value(v: ValueView, quoted: bool) -> Seq<char> {
    match v {
        ValueView::Str(s) => if quoted {
            seq!['"'] + s + seq!['"']
        } else {
            s
        },
        ValueView::Int(i) => crate::text::dec_int_str(i),
        ValueView::Bool(b) => if b {
            "true"@
        } else {
            "false"@
        },
    }
}

fn display_value(v: &Value, quoted: bool) -> (r: String)
    ensures
        r@ == spec_display_value(v@, quoted),
{
    match v {
        Value::String(s) => {
            if quoted {
                let mut r = String::new();
                r.push('"');
                r.append(s.as_str());
                r.push('"');
                proof {
                    assert(r@ =~= spec_display_value(v@, quoted));
                }
                r
            } else {
                s.clone()
            }
        },
        Value::Integer(i) => crate::text::i64_to_string(*i),
        Value::Boolean(b) => {
            if *b {
                "true".to_owned()
            } else {
                "false".to_owned()
            }
        },
    }
}

/// The message for a copy-without-render pattern that does not compile.
pub open spec fn msg_invalid_pattern(pattern: Seq<char>, err: Seq<char>) -> Seq<char> {
    "In copy_without_render, `"@ + pattern + "` is not a valid pattern: "@ + err
}

/// The message for a hook file that is not on disk.
pub open spec fn msg_hook_missing(path: Seq<char>) -> Seq<char> {
    "Hook file `"@ + path + "` was not found"@
}

/// The message for a default value outside the variable's own choices.
pub open spec fn msg_default_not_in_choices(name: Seq<char>, shown: Seq<char>) -> Seq<char> {
    "Variable `"@ + name + "` has `"@ + shown + "` as default, which isn't in the choices"@
}

/// The message for a gate on a variable that was never declared.
pub open spec fn msg_unknown_dep(name: Seq<char>, dep: Seq<char>) -> Seq<char> {
    "Variable `"@ + name + "` depends on `"@ + dep + "`, which wasn't asked"@
}

/// The message for a gate whose value has another kind than the variable it
/// points at.
pub open spec fn msg_type_mismatch(
    name: Seq<char>,
    dep: Seq<char>,
    shown: Seq<char>,
    kind: Seq<char>,
) -> Seq<char> {
    "Variable `"@ + name + "` depends on `"@ + dep + "="@ + shown + "`, but the type of `"@ + dep
        + "` is "@ + kind
}

/// The message for a validation regex on a non-string variable.
pub open spec fn msg_regex_not_string(name: Seq<char>) -> Seq<char> {
    "Variable `"@ + name + "` has a validation regex but is not a string"@
}

/// The message for a validation regex that does not compile.
pub open spec fn msg_invalid_regex(name: Seq<char>, pattern: Seq<char>) -> Seq<char> {
    "Variable `"@ + name + "` has an invalid validation regex: "@ + pattern
}

/// The message for a default that fails its own validation regex.
pub open spec fn msg_regex_fail(name: Seq<char>) -> Seq<char> {
    "Variable `"@ + name + "` has a default that doesn't pass its validation regex"@
}

/// The kind of the latest variable named `name` among the first `upto`
/// variables, the way an in-order scan that overwrites sees it.
pub open spec fn kind_of_last(vars: Seq<VariableView>, upto: int, name: Seq<char>) -> Option<
    Seq<char>,
>
    decreases upto,
{
    if upto <= 0 || upto > vars.len() {
        None
    } else if vars[upto - 1].name == name {
        Some(vars[upto - 1].default.kind_name())
    } else {
        kind_of_last(vars, upto - 1, name)
    }
}

/// The issue raised by a default missing from its own choice list.
pub open spec fn choice_issue(v: VariableView, quoted: bool) -> Seq<Seq<char>> {
    match v.choices {
        None => Seq::empty(),
        Some(cs) => if exists|j: int| 0 <= j < cs.len() && cs[j] == v.default {
            Seq::empty()
        } else {
            seq![msg_default_not_in_choices(v.name, spec_display_value(v.default, quoted))]
        },
    }
}

/// The issue raised by a variable's gate: a gate may name only a variable
/// already seen in the in-order scan, with a value of that variable's kind.
pub open spec fn cond_issue(vars: Seq<VariableView>, i: int, quoted: bool) -> Seq<Seq<char>> {
    match vars[i].only_if {
        None => Seq::empty(),
        Some(c) => match kind_of_last(vars, i + 1, c.name) {
            None => seq![msg_unknown_dep(vars[i].name, c.name)],
            Some(k) => if k == c.value.kind_name() {
                Seq::empty()
            } else {
                seq![
                    msg_type_mismatch(
                        vars[i].name,
                        c.name,
                        spec_display_value(c.value, quoted),
                        k,
                    ),
                ]
            },
        },
    }
}

/// The issue raised by a variable's validation regex.
pub open spec fn regex_issue(v: VariableView) -> Seq<Seq<char>> {
    match v.validation {
        None => Seq::empty(),
        Some(p) => match v.default {
            ValueView::Str(s) => if !regex_valid(p) {
                seq![msg_invalid_regex(v.name, p)]
            } else if !regex_matches(p, s) {
                seq![msg_regex_fail(v.name)]
            } else {
                Seq::empty()
            },
            _ => seq![msg_regex_not_string(v.name)],
        },
    }
}

/// All issues raised by one variable, in the order they are reported.
pub open spec fn issues_for_var(vars: Seq<VariableView>, i: int, quoted: bool) -> Seq<Seq<char>> {
    choice_issue(vars[i], quoted) + cond_issue(vars, i, quoted) + regex_issue(vars[i])
}

/// All issues raised by the first `i` variables, in declaration order.
pub open spec fn var_issues_upto(vars: Seq<VariableView>, i: int, quoted: bool) -> Seq<Seq<char>>
    decreases i,
{
    if i <= 0 {
        Seq::empty()
    } else {
        var_issues_upto(vars, i - 1, quoted) + issues_for_var(vars, i - 1, quoted)
    }
}

/// All issues raised by a variable list.
pub open spec fn spec_var_issues(vars: Seq<VariableView>, quoted: bool) -> Seq<Seq<char>> {
    var_issues_upto(vars, vars.len() as int, quoted)
}

/// All issues raised by the first `i` copy-without-render patterns.
pub open spec fn glob_issues_upto(pats: Seq<Seq<char>>, i: int) -> Seq<Seq<char>>
    decreases i,
{
    if i <= 0 || i > pats.len() {
        Seq::empty()
    } else {
        glob_issues_upto(pats, i - 1) + (match glob_compile(pats[i - 1]) {
            Ok(_) => Seq::<Seq<char>>::empty(),
            Err(m) => seq![msg_invalid_pattern(pats[i - 1], m)],
        })
    }
}

/// All issues raised by the first `i` hook files, given which were found on
/// disk.
pub open spec fn hook_issues_upto(paths: Seq<Seq<char>>, found: Seq<bool>, i: int) -> Seq<
    Seq<char>,
>
    decreases i,
{
    if i <= 0 || i > paths.len() || i > found.len() {
        Seq::empty()
    } else {
        hook_issues_upto(paths, found, i - 1) + (if found[i - 1] {
            Seq::<Seq<char>>::empty()
        } else {
            seq![msg_hook_missing(paths[i - 1])]
        })
    }
}

/// Everything `validate` flags, in the order it reports them: malformed
/// copy-without-render patterns, then missing hook files, then the
/// variables' own issues in declaration order.
pub open spec fn spec_validate(def: DefinitionView, hooks_found: Seq<bool>) -> Seq<Seq<char>> {
    glob_issues_upto(def.copy_without_render, def.copy_without_render.len() as int)
        + hook_issues_upto(spec_hooks_paths(def), hooks_found, spec_hooks_paths(def).len() as int)
        + spec_var_issues(def.variables, false)
}

fn msg_invalid_pattern_exec(pattern: &String, err: &String) -> (r: String)
    ensures
        r@ == msg_invalid_pattern(pattern@, err@),
{
    let mut s = String::new();
    s.append("In copy_without_render, `");
    s.append(pattern.as_str());
    s.append("` is not a valid pattern: ");
    s.append(err.as_str());
    proof {
        assert(s@ =~= msg_invalid_pattern(pattern@, err@));
    }
    s
}

fn msg_hook_missing_exec(path: &String) -> (r: String)
    ensures
        r@ == msg_hook_missing(path@),
{
    let mut s = String::new();
    s.append("Hook file `");
    s.append(path.as_str());
    s.append("` was not found");
    proof {
        assert(s@ =~= msg_hook_missing(path@));
    }
    s
}

fn msg_default_not_in_choices_exec(name: &String, default: &Value, quoted: bool) -> (r: String)
    ensures
        r@ == msg_default_not_in_choices(name@, spec_display_value(default@, quoted)),
{
    let mut s = String::new();
    s.append("Variable `");
    s.append(name.as_str());
    s.append("` has `");
    let shown = display_value(default, quoted);
    s.append(shown.as_str());
    s.append("` as default, which isn't in the choices");
    proof {
        assert(s@ =~= msg_default_not_in_choices(name@, spec_display_value(default@, quoted)));
    }
    s
}

fn msg_unknown_dep_exec(name: &String, dep: &String) -> (r: String)
    ensures
        r@ == msg_unknown_dep(name@, dep@),
{
    let mut s = String::new();
    s.append("Variable `");
    s.append(name.as_str());
    s.append("` depends on `");
    s.append(dep.as_str());
    s.append("`, which wasn't asked");
    proof {
        assert(s@ =~= msg_unknown_dep(name@, dep@));
    }
    s
}

fn msg_type_mismatch_exec(name: &String, dep: &String, value: &Value, kind: &str, quoted: bool) -> (r:
    String)
    ensures
        r@ == msg_type_mismatch(name@, dep@, spec_display_value(value@, quoted), kind@),
{
    let mut s = String::new();
    s.append("Variable `");
    s.append(name.as_str());
    s.append("` depends on `");
    s.append(dep.as_str());
    s.append("=");
    let shown = display_value(value, quoted);
    s.append(shown.as_str());
    s.append("`, but the type of `");
    s.append(dep.as_str());
    s.append("` is ");
    s.append(kind);
    proof {
        assert(s@ =~= msg_type_mismatch(name@, dep@, spec_display_value(value@, quoted), kind@));
    }
    s
}

fn msg_regex_not_string_exec(name: &String) -> (r: String)
    ensures
        r@ == msg_regex_not_string(name@),
{
    let mut s = String::new();
    s.append("Variable `");
    s.append(name.as_str());
    s.append("` has a validation regex but is not a string");
    proof {
        assert(s@ =~= msg_regex_not_string(name@));
    }
    s
}

fn msg_invalid_regex_exec(name: &String, pattern: &String) -> (r: String)
    ensures
        r@ == msg_invalid_regex(name@, pattern@),
{
    let mut s = String::new();
    s.append("Variable `");
    s.append(name.as_str());
    s.append("` has an invalid validation regex: ");
    s.append(pattern.as_str());
    proof {
        assert(s@ =~= msg_invalid_regex(name@, pattern@));
    }
    s
}

fn msg_regex_fail_exec(name: &String) -> (r: String)
    ensures
        r@ == msg_regex_fail(name@),
{
    let mut s = String::new();
    s.append("Variable `");
    s.append(name.as_str());
    s.append("` has a default that doesn't pass its validation regex");
    proof {
        assert(s@ =~= msg_regex_fail(name@));
    }
    s
}

fn kind_lookup(vars: &Vec<Variable>, upto: usize, name: &str) -> (r: Option<&'static str>)
    requires
        upto <= vars@.len(),
    ensures
        match r {
            Some(k) => kind_of_last(vars.deep_view(), upto as int, name@) == Some(k@),
            None => kind_of_last(vars.deep_view(), upto as int, name@) is None,
        },
{
    let ghost vs = vars.deep_view();
    let mut j: usize = upto;
    while j > 0
        invariant
            j <= upto,
            upto <= vars@.len(),
            vs == vars.deep_view(),
            kind_of_last(vs, upto as int, name@) == kind_of_last(vs, j as int, name@),
        decreases j,
    {
        let v = &vars[j - 1];
        if eq_str(v.name.as_str(), name) {
            return Some(v.default.type_str());
        }
        j -= 1;
    }
    None
}

/// All issues of the variable list, in declaration order; `quoted` selects
/// how values are shown inside the messages.
pub(crate) fn var_issues_exec(vars: &Vec<Variable>, quoted: bool) -> (r: Vec<String>)
    ensures
        r.deep_view() == spec_var_issues(vars.deep_view(), quoted),
{
    let ghost vs = vars.deep_view();
    let mut errs: Vec<String> = Vec::new();
    let mut i: usize = 0;
    let n = vars.len();
    proof {
        assert(errs.deep_view() =~= var_issues_upto(vs, 0, quoted));
    }
    while i < n
        invariant
            i <= n,
            n == vars@.len(),
            vs == vars.deep_view(),
            errs.deep_view() == var_issues_upto(vs, i as int, quoted),
        decreases n - i,
    {
        let v = &vars[i];
        let ghost before = errs.deep_view();
        // A default that is not one of its own choices.
        match &v.choices {
            Some(choices) => {
                let mut found = false;
                let mut k: usize = 0;
                let m = choices.len();
                while k < m
                    invariant
                        k <= m,
                        m == choices@.len(),
                        choices.deep_view() == v@.choices->Some_0,
                        found <==> exists|j: int|
                            0 <= j < k && choices.deep_view()[j] == v@.default,
                    decreases m - k,
                {
                    if choices[k].value_eq(&v.default) {
                        found = true;
                        assert(choices.deep_view()[k as int] == v@.default);
                    }
                    k += 1;
                }
                if !found {
                    errs.push(msg_default_not_in_choices_exec(&v.name, &v.default, quoted));
                }
            },
            None => {},
        }
        proof {
            assert(errs.deep_view() =~= before + choice_issue(vs[i as int], quoted));
        }
        let ghost after_choice = errs.deep_view();
        // A gate on an unknown variable, or one of the wrong kind.
        match &v.only_if {
            Some(cond) => {
                match kind_lookup(vars, i + 1, cond.name.as_str()) {
                    Some(k) => {
                        if !eq_str(k, cond.value.type_str()) {
                            errs.push(
                                msg_type_mismatch_exec(&v.name, &cond.name, &cond.value, k, quoted),
                            );
                        }
                    },
                    None => {
                        errs.push(msg_unknown_dep_exec(&v.name, &cond.name));
                    },
                }
            },
            None => {},
        }
        proof {
            assert(errs.deep_view() =~= after_choice + cond_issue(vs, i as int, quoted));
        }
        let ghost after_cond = errs.deep_view();
        // A validation regex that is misplaced, malformed, or failed by the
        // default itself.
        match &v.validation {
            Some(pattern) => {
                match v.default.as_str() {
                    Some(ds) => {
                        if !regex_check(pattern.as_str()) {
                            errs.push(msg_invalid_regex_exec(&v.name, pattern));
                        } else if !regex_is_match(pattern.as_str(), ds) {
                            errs.push(msg_regex_fail_exec(&v.name));
                        }
                    },
                    None => {
                        errs.push(msg_regex_not_string_exec(&v.name));
                    },
                }
            },
            None => {},
        }
        proof {
            assert(errs.deep_view() =~= after_cond + regex_issue(vs[i as int]));
            assert(errs.deep_view() =~= var_issues_upto(vs, i + 1 as int, quoted));
        }
        i += 1;
    }
    errs
}

impl TemplateDefinition {
    /// Go through the definition and find all errors such as invalid
    /// globs/regexes, missing/invalid default variables, bad conditions.
    /// The caller says, for each hook path of `all_hooks_paths`, whether the
    /// file exists on disk.  An empty result means the definition is usable.
    pub fn validate(&self, hooks_found: &Vec<bool>) -> (r: Vec<String>)
        requires
            hooks_found@.len() == spec_hooks_paths(self@).len(),
        ensures
            r.deep_view() == spec_validate(self@, hooks_found@),
    {
        let mut errs: Vec<String> = Vec::new();
        let ghost pats = self@.copy_without_render;
        let mut i: usize = 0;
        let n = self.copy_without_render.len();
        while i < n
            invariant
                i <= n,
                n == self.copy_without_render@.len(),
                pats == self@.copy_without_render,
                errs.deep_view() == glob_issues_upto(pats, i as int),
            decreases n - i,
        {
            let pattern = &self.copy_without_render[i];
            let ghost before = errs.deep_view();
            match glob_check(pattern.as_str()) {
                Ok(_) => {},
                Err(e) => {
                    errs.push(msg_invalid_pattern_exec(pattern, &e));
                },
            }
            proof {
                assert(errs.deep_view() =~= glob_issues_upto(pats, i + 1 as int));
            }
            i += 1;
        }
        let paths = self.all_hooks_paths();
        let ghost pview = spec_hooks_paths(self@);
        let ghost globs_all = errs.deep_view();
        let mut j: usize = 0;
        let m = paths.len();
        while j < m
            invariant
                j <= m,
                m == paths@.len(),
                paths.deep_view() == pview,
                hooks_found@.len() == pview.len(),
                errs.deep_view() == globs_all + hook_issues_upto(pview, hooks_found@, j as int),
            decreases m - j,
        {
            proof {
                assert(pview.len() == paths@.len());
                assert(paths.deep_view()[j as int] == paths@[j as int]@);
                assert(pview[j as int] == paths@[j as int]@);
            }
            let ghost eb = errs.deep_view();
            if !hooks_found[j] {
                let msg = msg_hook_missing_exec(&paths[j]);
                let ghost mv = msg@;
                proof {
                    assert(mv == msg_hook_missing(pview[j as int]));
                }
                errs.push(msg);
                proof {
                    assert(errs.deep_view() =~= eb.push(mv));
                }
            }
            proof {
                assert(hook_issues_upto(pview, hooks_found@, j + 1 as int) == hook_issues_upto(
                    pview,
                    hooks_found@,
                    j as int,
                ) + (if hooks_found@[j as int] {
                    Seq::<Seq<char>>::empty()
                } else {
                    seq![msg_hook_missing(pview[j as int])]
                }));
                assert(errs.deep_view() =~= globs_all + hook_issues_upto(
                    pview,
                    hooks_found@,
                    j + 1 as int,
                ));
            }
            j += 1;
        }
        let mut vi = var_issues_exec(&self.variables, false);
        let ghost vi_view = vi.deep_view();
        errs.append(&mut vi);
        proof {
            assert(errs.deep_view() =~= spec_validate(self@, hooks_found@));
        }
        errs
    }
}

/// Whether a variable's gate passes against the values resolved so far: a
/// variable without a gate is always asked; a gate naming an unresolved
/// variable never passes.
pub open spec fn gate_passes(cond: Option<CondView>, m: Map<Seq<char>, ValueView>) -> bool {
    match cond {
        None => true,
        Some(c) => m.dom().contains(c.name) && m[c.name] == c.value,
    }
}

/// What may stand for a variable's resolved default: integers and booleans
/// are taken as given; a string default is rendered through the template
/// engine, which leaves it unchanged when it holds no delimiters and
/// otherwise yields some string.
pub open spec fn default_matches(v: VariableView, val: ValueView) -> bool {
    match v.default {
        ValueView::Int(i) => val == ValueView::Int(i),
        ValueView::Bool(b) => val == ValueView::Bool(b),
        ValueView::Str(s) => if no_tera_delims(s) {
            val == ValueView::Str(s)
        } else {
            val is Str
        },
    }
}

/// Whether a gate lets its variable be asked, given the values resolved so
/// far.
pub fn gate_allows(cond: &Option<Condition>, vals: &VarMap) -> (r: bool)
    ensures
        r == gate_passes(cond.deep_view(), vals@),
{
    match cond {
        None => true,
        Some(c) => match vals.get(c.name.as_str()) {
            Some(v) => v.value_eq(&c.value),
            None => false,
        },
    }
}

/// The resolution relation: processing `vars` in declaration order, starting
/// from the partial mapping `m0`, can end in the mapping `m`.  A variable
/// whose gate fails is skipped and never enters the mapping.
pub open spec fn resolves(
    vars: Seq<VariableView>,
    m0: Map<Seq<char>, ValueView>,
    m: Map<Seq<char>, ValueView>,
) -> bool
    decreases vars.len(),
{
    if vars.len() == 0 {
        m == m0
    } else if !gate_passes(vars[0].only_if, m0) {
        resolves(vars.drop_first(), m0, m)
    } else {
        exists|val: ValueView|
            #[trigger] default_matches(vars[0], val) && resolves(
                vars.drop_first(),
                m0.insert(vars[0].name, val),
                m,
            )
    }
}

proof fn lemma_resolves_skip(
    vars: Seq<VariableView>,
    m0: Map<Seq<char>, ValueView>,
    m: Map<Seq<char>, ValueView>,
    v: VariableView,
)
    requires
        resolves(vars, m0, m),
        !gate_passes(v.only_if, m),
    ensures
        resolves(vars.push(v), m0, m),
    decreases vars.len(),
{
    if vars.len() == 0 {
        assert(vars.push(v)[0] == v);
        assert(vars.push(v).drop_first() =~= vars);
    } else {
        let rest = vars.drop_first();
        assert(vars.push(v).drop_first() =~= rest.push(v));
        assert(vars.push(v)[0] == vars[0]);
        if !gate_passes(vars[0].only_if, m0) {
            lemma_resolves_skip(rest, m0, m, v);
        } else {
            let val = choose|val: ValueView|
                #[trigger] default_matches(vars[0], val) && resolves(
                    rest,
                    m0.insert(vars[0].name, val),
                    m,
                );
            lemma_resolves_skip(rest, m0.insert(vars[0].name, val), m, v);
            assert(default_matches(vars.push(v)[0], val) && resolves(
                rest.push(v),
                m0.insert(vars[0].name, val),
                m,
            ));
        }
    }
}

proof fn lemma_resolves_step(
    vars: Seq<VariableView>,
    m0: Map<Seq<char>, ValueView>,
    m: Map<Seq<char>, ValueView>,
    v: VariableView,
    val: ValueView,
)
    requires
        resolves(vars, m0, m),
        gate_passes(v.only_if, m),
        default_matches(v, val),
    ensures
        resolves(vars.push(v), m0, m.insert(v.name, val)),
    decreases vars.len(),
{
    if vars.len() == 0 {
        assert(vars.push(v)[0] == v);
        assert(vars.push(v).drop_first() =~= vars);
        assert(default_matches(vars.push(v)[0], val) && resolves(
            vars,
            m0.insert(v.name, val),
            m.insert(v.name, val),
        ));
    } else {
        let rest = vars.drop_first();
        assert(vars.push(v).drop_first() =~= rest.push(v));
        assert(vars.push(v)[0] == vars[0]);
        if !gate_passes(vars[0].only_if, m0) {
            lemma_resolves_step(rest, m0, m, v, val);
        } else {
            let w = choose|w: ValueView|
                #[trigger] default_matches(vars[0], w) && resolves(
                    rest,
                    m0.insert(vars[0].name, w),
                    m,
                );
            lemma_resolves_step(rest, m0.insert(vars[0].name, w), m, v, val);
            assert(default_matches(vars.push(v)[0], w) && resolves(
                rest.push(v),
                m0.insert(vars[0].name, w),
                m.insert(v.name, val),
            ));
        }
    }
}

/// Law: resolution never invents a name.  A name that no variable declares
/// and that the starting mapping lacks is absent from the final mapping.
pub proof fn lemma_resolves_no_stray_names(
    vars: Seq<VariableView>,
    m0: Map<Seq<char>, ValueView>,
    m: Map<Seq<char>, ValueView>,
    n: Seq<char>,
)
    requires
        resolves(vars, m0, m),
        !m0.dom().contains(n),
        forall|k: int| 0 <= k < vars.len() ==> (#[trigger] vars[k].name) != n,
    ensures
        !m.dom().contains(n),
    decreases vars.len(),
{
    if vars.len() > 0 {
        let rest = vars.drop_first();
        assert(forall|k: int| 0 <= k < rest.len() ==> (#[trigger] rest[k].name) == vars[k + 1].name);
        if !gate_passes(vars[0].only_if, m0) {
            lemma_resolves_no_stray_names(rest, m0, m, n);
        } else {
            let val = choose|val: ValueView|
                #[trigger] default_matches(vars[0], val) && resolves(
                    rest,
                    m0.insert(vars[0].name, val),
                    m,
                );
            lemma_resolves_no_stray_names(rest, m0.insert(vars[0].name, val), m, n);
        }
    }
}

/// Law: resolution only grows the mapping; nothing already resolved is
/// dropped.
pub proof fn lemma_resolves_monotonic(
    vars: Seq<VariableView>,
    m0: Map<Seq<char>, ValueView>,
    m: Map<Seq<char>, ValueView>,
)
    requires
        resolves(vars, m0, m),
    ensures
        forall|n: Seq<char>| m0.dom().contains(n) ==> m.dom().contains(n),
    decreases vars.len(),
{
    if vars.len() > 0 {
        let rest = vars.drop_first();
        if !gate_passes(vars[0].only_if, m0) {
            lemma_resolves_monotonic(rest, m0, m);
        } else {
            let val = choose|val: ValueView|
                #[trigger] default_matches(vars[0], val) && resolves(
                    rest,
                    m0.insert(vars[0].name, val),
                    m,
                );
            lemma_resolves_monotonic(rest, m0.insert(vars[0].name, val), m);
        }
    }
}

/// Law: a value resolved before the variables run keeps its value, as long
/// as no variable re-declares its name.
pub proof fn lemma_resolves_preserves(
    vars: Seq<VariableView>,
    m0: Map<Seq<char>, ValueView>,
    m: Map<Seq<char>, ValueView>,
    n: Seq<char>,
)
    requires
        resolves(vars, m0, m),
        m0.dom().contains(n),
        forall|k: int| 0 <= k < vars.len() ==> (#[trigger] vars[k].name) != n,
    ensures
        m.dom().contains(n),
        m[n] == m0[n],
    decreases vars.len(),
{
    if vars.len() > 0 {
        let rest = vars.drop_first();
        assert(forall|k: int| 0 <= k < rest.len() ==> (#[trigger] rest[k].name) == vars[k + 1].name);
        if !gate_passes(vars[0].only_if, m0) {
            lemma_resolves_preserves(rest, m0, m, n);
        } else {
            let val = choose|val: ValueView|
                #[trigger] default_matches(vars[0], val) && resolves(
                    rest,
                    m0.insert(vars[0].name, val),
                    m,
                );
            lemma_resolves_preserves(rest, m0.insert(vars[0].name, val), m, n);
        }
    }
}

/// Law (nested conditional skipping): a variable gated on a variable that is
/// absent from the final mapping was itself skipped, and so is absent too —
/// however deep the chain, since this applies to every such variable.
pub proof fn lemma_skipped_dependency(
    vars: Seq<VariableView>,
    m0: Map<Seq<char>, ValueView>,
    m: Map<Seq<char>, ValueView>,
    j: int,
)
    requires
        resolves(vars, m0, m),
        0 <= j < vars.len(),
        vars[j].only_if is Some,
        !m.dom().contains(vars[j].only_if->Some_0.name),
        !m0.dom().contains(vars[j].name),
        forall|k: int| 0 <= k < vars.len() && k != j ==> (#[trigger] vars[k].name) != vars[j].name,
    ensures
        !m.dom().contains(vars[j].name),
    decreases vars.len(),
{
    let rest = vars.drop_first();
    assert(forall|k: int| 0 <= k < rest.len() ==> (#[trigger] rest[k].name) == vars[k + 1].name);
    if j == 0 {
        let c = vars[0].only_if->Some_0;
        if gate_passes(vars[0].only_if, m0) {
            let val = choose|val: ValueView|
                #[trigger] default_matches(vars[0], val) && resolves(
                    rest,
                    m0.insert(vars[0].name, val),
                    m,
                );
            lemma_resolves_monotonic(rest, m0.insert(vars[0].name, val), m);
            assert(m.dom().contains(c.name));
            assert(false);
        }
        lemma_resolves_no_stray_names(rest, m0, m, vars[0].name);
    } else {
        if !gate_passes(vars[0].only_if, m0) {
            lemma_skipped_dependency(rest, m0, m, j - 1);
        } else {
            let val = choose|val: ValueView|
                #[trigger] default_matches(vars[0], val) && resolves(
                    rest,
                    m0.insert(vars[0].name, val),
                    m,
                );
            lemma_skipped_dependency(rest, m0.insert(vars[0].name, val), m, j - 1);
        }
    }
}

/// Law (conditional skipping): a variable whose gate asks for a value other
/// than the one its target resolved to — or whose target was never resolved —
/// is absent from the final mapping.  Variable names must be unique and not
/// re-declare anything already resolved.
pub proof fn lemma_failed_gate_skips(
    vars: Seq<VariableView>,
    m0: Map<Seq<char>, ValueView>,
    m: Map<Seq<char>, ValueView>,
    j: int,
)
    requires
        resolves(vars, m0, m),
        0 <= j < vars.len(),
        vars[j].only_if is Some,
        !m.dom().contains(vars[j].only_if->Some_0.name) || m[vars[j].only_if->Some_0.name]
            != vars[j].only_if->Some_0.value,
        forall|p: int, q: int| 0 <= p < q < vars.len() ==> vars[p].name != vars[q].name,
        forall|k: int| 0 <= k < vars.len() ==> !m0.dom().contains(#[trigger] vars[k].name),
    ensures
        !m.dom().contains(vars[j].name),
    decreases vars.len(),
{
    let rest = vars.drop_first();
    assert(forall|k: int| 0 <= k < rest.len() ==> (#[trigger] rest[k].name) == vars[k + 1].name);
    if j == 0 {
        let c = vars[0].only_if->Some_0;
        if gate_passes(vars[0].only_if, m0) {
            // The gating name is already in `m0`, so no variable carries
            // it, and what `m0` binds it to is kept to the end.
            let val = choose|val: ValueView|
                #[trigger] default_matches(vars[0], val) && resolves(
                    rest,
                    m0.insert(vars[0].name, val),
                    m,
                );
            assert(m0.dom().contains(c.name));
            assert(forall|k: int| 0 <= k < vars.len() ==> (#[trigger] vars[k].name) != c.name);
            lemma_resolves_preserves(rest, m0.insert(vars[0].name, val), m, c.name);
            assert(false);
        }
        lemma_resolves_no_stray_names(rest, m0, m, vars[0].name);
    } else {
        if !gate_passes(vars[0].only_if, m0) {
            lemma_failed_gate_skips(rest, m0, m, j - 1);
        } else {
            let val = choose|val: ValueView|
                #[trigger] default_matches(vars[0], val) && resolves(
                    rest,
                    m0.insert(vars[0].name, val),
                    m,
                );
            lemma_failed_gate_skips(rest, m0.insert(vars[0].name, val), m, j - 1);
        }
    }
}

/// Whether every string default is free of template delimiters, so that
/// defaults-only resolution is deterministic.
pub open spec fn all_plain_defaults(vars: Seq<VariableView>) -> bool {
    forall|i: int|
        0 <= i < vars.len() ==> ((#[trigger] vars[i].default) matches ValueView::Str(s)
            ==> no_tera_delims(s))
}

/// The one mapping that defaults-only resolution of the first `i` variables
/// yields when every string default is plain text.
pub open spec fn resolve_plain_upto(vars: Seq<VariableView>, i: int) -> Map<Seq<char>, ValueView>
    decreases i,
{
    if i <= 0 {
        Map::empty()
    } else {
        let m = resolve_plain_upto(vars, i - 1);
        if gate_passes(vars[i - 1].only_if, m) {
            m.insert(vars[i - 1].name, vars[i - 1].default)
        } else {
            m
        }
    }
}

/// The one mapping that defaults-only resolution yields when every string
/// default is plain text.
pub open spec fn resolve_plain(vars: Seq<VariableView>) -> Map<Seq<char>, ValueView> {
    resolve_plain_upto(vars, vars.len() as int)
}

/// The hook paths of a definition: pre-generation hooks first.
pub open spec fn spec_hooks_paths(def: DefinitionView) -> Seq<Seq<char>> {
    def.pre_gen_hooks.map_values(|h: HookView| h.path) + def.post_gen_hooks.map_values(
        |h: HookView| h.path,
    )
}

impl TemplateDefinition {
    /// The schema versions this engine recognises.  A manifest with any
    /// other version must be rejected by the loader.
    pub fn supported_schema(&self) -> (r: bool)
        ensures
            r == (self.kickstart_version == 1),
    {
        self.kickstart_version == 1
    }

    /// The relative paths of all hook files, pre-generation hooks first.
    pub fn all_hooks_paths(&self) -> (r: Vec<String>)
        ensures
            r.deep_view() == spec_hooks_paths(self@),
    {
        let mut paths: Vec<String> = Vec::new();
        let mut i: usize = 0;
        let n1 = self.pre_gen_hooks.len();
        while i < n1
            invariant
                i <= n1,
                n1 == self.pre_gen_hooks@.len(),
                paths@.len() == i,
                forall|k: int| 0 <= k < i ==> paths@[k]@ == self.pre_gen_hooks@[k].path@,
            decreases n1 - i,
        {
            paths.push(self.pre_gen_hooks[i].path.clone());
            i += 1;
        }
        let mut j: usize = 0;
        let n2 = self.post_gen_hooks.len();
        while j < n2
            invariant
                j <= n2,
                n1 == self.pre_gen_hooks@.len(),
                n2 == self.post_gen_hooks@.len(),
                paths@.len() == n1 + j,
                forall|k: int| 0 <= k < n1 ==> paths@[k]@ == self.pre_gen_hooks@[k].path@,
                forall|k: int| 0 <= k < j ==> paths@[n1 + k]@ == self.post_gen_hooks@[k].path@,
            decreases n2 - j,
        {
            paths.push(self.post_gen_hooks[j].path.clone());
            j += 1;
        }
        proof {
            assert(paths.deep_view() =~= spec_hooks_paths(self@));
        }
        paths
    }

    /// Returns the default values for all the variables that have one, in
    /// declaration order, honouring `only_if` gating and rendering templated
    /// string defaults against the values resolved so far.  When every
    /// string default is plain text the result is the one mapping
    /// `resolve_plain` describes, and resolution cannot fail.
    pub fn default_values(&self) -> (r: Result<VarMap, Error>)
        ensures
            r matches Ok(m) ==> resolves(self@.variables, Map::empty(), m@),
            r matches Err(e) ==> e.kind is Tera,
            all_plain_defaults(self@.variables) ==> (r matches Ok(m) && m@ == resolve_plain(
                self@.variables,
            )),
    {
        let ghost vs = self@.variables;
        let mut vals = VarMap::new();
        let mut i: usize = 0;
        let n = self.variables.len();
        proof {
            assert(vs.subrange(0, 0) =~= Seq::<VariableView>::empty());
        }
        while i < n
            invariant
                i <= n,
                n == self.variables@.len(),
                vs == self@.variables,
                resolves(vs.subrange(0, i as int), Map::empty(), vals@),
                all_plain_defaults(vs) ==> vals@ == resolve_plain_upto(vs, i as int),
            decreases n - i,
        {
            let var = &self.variables[i];
            let ghost prefix = vs.subrange(0, i as int);
            let ghost vv = vs[i as int];
            proof {
                assert(var@ == vv);
                assert(vs.subrange(0, i + 1 as int) =~= prefix.push(vv));
            }
            // Skip the question if the value is different from the
            // condition, or if the gating variable was itself never asked.
            let pass = gate_allows(&var.only_if, &vals);
            proof {
                assert(pass == gate_passes(vv.only_if, vals@));
            }
            if !pass {
                proof {
                    lemma_resolves_skip(prefix, Map::empty(), vals@, vv);
                }
                i += 1;
                continue ;
            }
            match &var.default {
                Value::Boolean(b) => {
                    let ghost pre = vals@;
                    vals.insert(var.name.clone(), Value::Boolean(*b));
                    proof {
                        lemma_resolves_step(prefix, Map::empty(), pre, vv, vv.default);
                    }
                },
                Value::Integer(v) => {
                    let ghost pre = vals@;
                    vals.insert(var.name.clone(), Value::Integer(*v));
                    proof {
                        lemma_resolves_step(prefix, Map::empty(), pre, vv, vv.default);
                    }
                },
                Value::String(s) => {
                    match render_one_off_template(s.as_str(), &vals, None) {
                        Ok(rendered) => {
                            let ghost rv = ValueView::Str(rendered@);
                            let ghost pre = vals@;
                            vals.insert(var.name.clone(), Value::String(rendered));
                            proof {
                                assert(default_matches(vv, rv));
                                lemma_resolves_step(prefix, Map::empty(), pre, vv, rv);
                            }
                        },
                        Err(e) => {
                            proof {
                                if all_plain_defaults(vs) {
                                    assert(no_tera_delims(s@));
                                    assert(false);
                                }
                            }
                            return Err(e);
                        },
                    }
                },
            }
            i += 1;
        }
        proof {
            assert(vs.subrange(0, n as int) =~= vs);
        }
        Ok(vals)
    }
}

} // verus!
