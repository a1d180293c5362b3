use vstd::prelude::*;
use vstd::string::StringExecFns;

use crate::shadertoy::{
    is_prefix, new_string, replace_first, replaced_first, starts_with_text, trim_text, trimmed,
};

verus! {

pub open spec fn is_suffix(p: Seq<char>, s: Seq<char>) -> bool {
    p.len() <= s.len() && s.subrange(s.len() - p.len(), s.len() as int) == p
}

/// `s` without its double quotes and semicolons.
pub open spec fn unquoted(s: Seq<char>) -> Seq<char> {
    s.filter(|c: char| c != '"' && c != ';')
}

/// Relies on `str::ends_with` with a string pattern.
#[verifier::external_body]
fn ends_with_text(s: &str, p: &str) -> (r: bool)
    ensures
        r == is_suffix(p@, s@),
{
    s.ends_with(p)
}

/// Relies on `str::replace` with a pattern of two characters: every double
/// quote and semicolon removed.
#[verifier::external_body]
fn remove_quotes(s: &str) -> (r: String)
    ensures
        r@ == unquoted(s@),
{
    s.replace(['"', ';'], "")
}

/// What a line of an SDF shader source asks for.
#[derive(Debug, PartialEq, Eq)]
pub enum ShaderDirective {
    /// `use name;`: the text of the module `name`.
    Use(String),
    /// `include "path";`: the lines of another file.
    Include(String),
    /// Any other line, kept as it is.
    Text,
}

/// The argument of a directive line: the line without its keyword's first
/// occurrence, quotes and semicolons, trimmed.
pub open spec fn directive_argument(line: Seq<char>, keyword: Seq<char>) -> Seq<char> {
    trimmed(unquoted(replaced_first(line, keyword, seq![])))
}

/// Whether a line is a directive line: trimmed, it ends with `;` and
/// starts with `keyword`.
pub open spec fn is_directive(line: Seq<char>, keyword: Seq<char>) -> bool {
    is_suffix(";"@, trimmed(line)) && is_prefix(keyword, trimmed(line))
}

fn directive_argument_text(line: &str, keyword: &str) -> (r: String)
    ensures
        r@ == directive_argument(line@, keyword@),
{
    let without = replace_first(line, keyword, "");
    assert(""@ == Seq::<char>::empty()) by {
        reveal_strlit("");
    }
    let unq = remove_quotes(without.as_str());
    trim_text(unq.as_str())
}

/// Classifies one line of an SDF shader source.
pub fn shader_directive(line: &str) -> (r: ShaderDirective)
    ensures
        r is Use <==> is_directive(line@, "use"@),
        r is Include <==> !is_directive(line@, "use"@) && is_directive(line@, "include"@),
        r matches ShaderDirective::Use(name) ==> name@ == directive_argument(trimmed(line@), "use"@),
        r matches ShaderDirective::Include(path) ==> path@ == directive_argument(
            trimmed(line@),
            "include"@,
        ),
{
    let t = trim_text(line);
    if ends_with_text(t.as_str(), ";") {
        if starts_with_text(t.as_str(), "use") {
            return ShaderDirective::Use(directive_argument_text(t.as_str(), "use"));
        } else if starts_with_text(t.as_str(), "include") {
            return ShaderDirective::Include(directive_argument_text(t.as_str(), "include"));
        }
    }
    ShaderDirective::Text
}

/// The text of the first module registered under `name`, if any.
pub open spec fn module_lookup(modules: Seq<(String, String)>, name: Seq<char>) -> Option<Seq<char>>
    decreases modules.len(),
{
    if modules.len() == 0 {
        None
    } else if modules[0].0@ == name {
        Some(modules[0].1@)
    } else {
        module_lookup(modules.drop_first(), name)
    }
}

/// An SDF shader: its WGSL source and the modules that `use` lines of a
/// source file pull in.
pub struct Sdf3DShader {
    /// The shader's source.
    pub source: String,
    /// Module names and their texts, in registration order.
    pub modules: Vec<(String, String)>,
}

impl Default for Sdf3DShader {
    fn default() -> (r: Self)
        ensures
            r.source@.len() == 0,
            r.modules@.len() == 0,
    {
        Sdf3DShader::new()
    }
}

impl Sdf3DShader {
    pub fn new() -> (r: Self)
        ensures
            r.source@.len() == 0,
            r.modules@.len() == 0,
    {
        Sdf3DShader { source: String::new(), modules: Vec::new() }
    }

    /// Registers `text` as the module `name`; an earlier module of the same
    /// name keeps precedence.
    pub fn add_module(&mut self, name: &str, text: &str)
        ensures
            final(self).source@ == old(self).source@,
            final(self).modules@.len() == old(self).modules@.len() + 1,
            final(self).modules@.drop_last() == old(self).modules@,
            final(self).modules@.last().0@ == name@,
            final(self).modules@.last().1@ == text@,
    {
        self.modules.push((new_string(name), new_string(text)));
        assert(self.modules@.drop_last() =~= old(self).modules@);
    }

    /// The text of the module `name`, if one is registered.
    pub fn module_source(&self, name: &str) -> (r: Option<String>)
        ensures
            r is Some <==> module_lookup(self.modules@, name@) is Some,
            r is Some ==> r->0@ == module_lookup(self.modules@, name@)->0,
    {
        let mut i: usize = 0;
        assert(self.modules@.subrange(0, self.modules@.len() as int) =~= self.modules@);
        while i < self.modules.len()
            invariant
                i <= self.modules@.len(),
                module_lookup(self.modules@, name@) == module_lookup(
                    self.modules@.subrange(i as int, self.modules@.len() as int),
                    name@,
                ),
            decreases self.modules@.len() - i,
        {
            let ghost sub = self.modules@.subrange(i as int, self.modules@.len() as int);
            assert(sub.drop_first() =~= self.modules@.subrange(i + 1, self.modules@.len() as int));
            if self.modules[i].0 == new_string(name) {
                return Some(self.modules[i].1.clone());
            }
            i += 1;
        }
        None
    }

    pub fn add_to_source(&mut self, source: &str)
        ensures
            final(self).source@ == old(self).source@ + source@,
            final(self).modules@ == old(self).modules@,
    {
        self.source.append(source);
    }
}

} // verus!
