//! Deferred rendering: outbound messages that are given as a template and
//! its variables, and rendered when they are sent.
//!
//! The variables of a message are a table from names to values: no name
//! occurs twice, and a value that is given for a name that has one takes
//! the place of the former.

use minijinja::Environment;
use std::collections::BTreeMap;
use vstd::prelude::*;
use vstd::string::*;

verus! {

/// A variable of a template message.
#[derive(Debug)]
pub struct TemplateVar {
    pub name: String,
    pub value: String,
}

impl Clone for TemplateVar {
    fn clone(&self) -> (copy: TemplateVar)
        ensures
            copy == *self,
    {
        TemplateVar { name: self.name.clone(), value: self.value.clone() }
    }
}

/// Whether no name occurs twice among `vars`.
pub open spec fn distinct_names(vars: Seq<TemplateVar>) -> bool {
    forall|i: int, j: int|
        #![trigger vars[i], vars[j]]
        0 <= i < j < vars.len() ==> vars[i].name@ != vars[j].name@
}

/// Position of the first variable of `vars`, from `from` on, that is named
/// `name`.
pub open spec fn name_position(vars: Seq<TemplateVar>, name: Seq<char>, from: int) -> Option<int>
    decreases vars.len() - from,
{
    if from < 0 || from >= vars.len() {
        None
    } else if vars[from].name@ == name {
        Some(from)
    } else {
        name_position(vars, name, from + 1)
    }
}

/// `name_position` finds a variable of the name, the first one, exactly
/// where there is one.
pub proof fn lemma_name_position(vars: Seq<TemplateVar>, name: Seq<char>, from: int)
    requires
        0 <= from,
    ensures
        match name_position(vars, name, from) {
            Some(i) => {
                &&& from <= i < vars.len()
                &&& vars[i].name@ == name
                &&& forall|j: int| from <= j < i ==> (#[trigger] vars[j]).name@ != name
            },
            None => forall|j: int| from <= j < vars.len() ==> (#[trigger] vars[j]).name@ != name,
        },
    decreases vars.len() - from,
{
    if from < vars.len() && vars[from].name@ != name {
        lemma_name_position(vars, name, from + 1);
    }
}

/// The variables `vars` with `var` given as well: in the place of the
/// variable of its name, if there is one, and at the end otherwise.
pub open spec fn with_var(vars: Seq<TemplateVar>, var: TemplateVar) -> Seq<TemplateVar> {
    match name_position(vars, var.name@, 0) {
        Some(i) => vars.update(i, var),
        None => vars.push(var),
    }
}

/// The table that the variables `vars` make when they are given in turn.
pub open spec fn collected(vars: Seq<TemplateVar>) -> Seq<TemplateVar>
    decreases vars.len(),
{
    if vars.len() == 0 {
        Seq::empty()
    } else {
        with_var(collected(vars.drop_last()), vars.last())
    }
}

/// Giving a variable to a table in which no name occurs twice leaves a
/// table in which no name occurs twice.
pub proof fn lemma_with_var_distinct(vars: Seq<TemplateVar>, var: TemplateVar)
    requires
        distinct_names(vars),
    ensures
        distinct_names(with_var(vars, var)),
{
    lemma_name_position(vars, var.name@, 0);
    let next = with_var(vars, var);
    match name_position(vars, var.name@, 0) {
        Some(k) => {
            assert forall|i: int, j: int|
                #![trigger next[i], next[j]]
                0 <= i < j < next.len() implies next[i].name@ != next[j].name@ by {
                assert(next[i].name@ == vars[i].name@);
                assert(next[j].name@ == vars[j].name@);
            }
        },
        None => {
            assert forall|i: int, j: int|
                #![trigger next[i], next[j]]
                0 <= i < j < next.len() implies next[i].name@ != next[j].name@ by {
                assert(next[i] == vars[i]);
                if j < vars.len() {
                    assert(next[j] == vars[j]);
                }
            }
        },
    }
}

/// Variables among which no name occurs twice make the table that holds
/// them as they are.
pub proof fn lemma_collected_distinct(vars: Seq<TemplateVar>)
    requires
        distinct_names(vars),
    ensures
        collected(vars) == vars,
    decreases vars.len(),
{
    if vars.len() > 0 {
        let front = vars.drop_last();
        assert forall|i: int, j: int|
            #![trigger front[i], front[j]]
            0 <= i < j < front.len() implies front[i].name@ != front[j].name@ by {
            assert(front[i] == vars[i] && front[j] == vars[j]);
        }
        lemma_collected_distinct(front);
        lemma_name_position(front, vars.last().name@, 0);
        if name_position(front, vars.last().name@, 0) is Some {
            let k = name_position(front, vars.last().name@, 0).unwrap();
            assert(front[k] == vars[k]);
            assert(vars[k].name@ != vars[vars.len() - 1].name@);
        }
        assert(front.push(vars.last()) =~= vars);
    }
}

/// The variables of a template message: a table from names to values, in
/// the order in which the names were first given.
#[derive(Debug)]
pub struct TemplateVars {
    vars: Vec<TemplateVar>,
}

impl View for TemplateVars {
    type V = Seq<TemplateVar>;

    closed spec fn view(&self) -> Seq<TemplateVar> {
        self.vars@
    }
}

impl TemplateVars {
    #[verifier::type_invariant]
    spec fn distinct(&self) -> bool {
        distinct_names(self.vars@)
    }

    /// A table without variables.
    pub fn new() -> (table: TemplateVars)
        ensures
            table@ == Seq::<TemplateVar>::empty(),
    {
        TemplateVars { vars: Vec::new() }
    }

    /// The table that the variables `vars` make when they are given in
    /// turn: of two values for one name the later one stays.
    pub fn from_vec(vars: Vec<TemplateVar>) -> (table: TemplateVars)
        ensures
            table@ == collected(vars@),
            distinct_names(table@),
            distinct_names(vars@) ==> table@ == vars@,
    {
        let mut table = TemplateVars::new();
        let mut k: usize = 0;
        assert(vars@.take(0) =~= Seq::<TemplateVar>::empty());
        while k < vars.len()
            invariant
                k <= vars@.len(),
                table@ == collected(vars@.take(k as int)),
            decreases vars@.len() - k,
        {
            let var = vars[k].clone();
            assert(vars@.take(k + 1).drop_last() =~= vars@.take(k as int));
            assert(vars@.take(k + 1).last() == vars@[k as int]);
            table.insert(var.name, var.value);
            k = k + 1;
        }
        assert(vars@.take(k as int) =~= vars@);
        proof {
            use_type_invariant(&table);
            if distinct_names(vars@) {
                lemma_collected_distinct(vars@);
            }
        }
        table
    }

    /// Number of variables.
    pub fn len(&self) -> (n: usize)
        ensures
            n == self@.len(),
    {
        self.vars.len()
    }

    /// The variables, in the order in which their names were first given.
    /// No name occurs twice among them.
    pub fn vars(&self) -> (vars: &Vec<TemplateVar>)
        ensures
            vars@ == self@,
            distinct_names(self@),
    {
        proof {
            use_type_invariant(self);
        }
        &self.vars
    }

    /// The row of the variable named `name`.
    fn position(&self, name: &String) -> (found: Option<usize>)
        ensures
            distinct_names(self@),
            match found {
                Some(i) => name_position(self@, name@, 0) == Some(i as int) && i < self@.len(),
                None => name_position(self@, name@, 0) is None,
            },
    {
        proof {
            use_type_invariant(self);
            lemma_name_position(self.vars@, name@, 0);
        }
        let mut i: usize = 0;
        while i < self.vars.len()
            invariant
                i <= self.vars@.len(),
                distinct_names(self.vars@),
                name_position(self.vars@, name@, 0) == name_position(self.vars@, name@, i as int),
            decreases self.vars@.len() - i,
        {
            if self.vars[i].name == *name {
                return Some(i);
            }
            i = i + 1;
        }
        None
    }

    /// The value of the variable named `name`.
    pub fn get(&self, name: &String) -> (found: Option<&String>)
        ensures
            match name_position(self@, name@, 0) {
                Some(i) => found == Some(&self@[i].value),
                None => found is None,
            },
    {
        match self.position(name) {
            Some(i) => Some(&self.vars[i].value),
            None => None,
        }
    }

    /// Gives the variable named `name` the value `value`. A new name gets
    /// its row at the end; a name that has a value keeps its place, and its
    /// former value is returned.
    pub fn insert(&mut self, name: String, value: String) -> (former: Option<String>)
        ensures
            final(self)@ == with_var(old(self)@, TemplateVar { name, value }),
            distinct_names(final(self)@),
            match name_position(old(self)@, name@, 0) {
                Some(i) => former == Some(old(self)@[i].value),
                None => former is None,
            },
    {
        let found = self.position(&name);
        let mut table = TemplateVars { vars: Vec::new() };
        std::mem::swap(self, &mut table);
        let TemplateVars { vars: mut vars } = table;
        let var = TemplateVar { name, value };
        proof {
            lemma_with_var_distinct(vars@, var);
        }
        let former = match found {
            Some(i) => {
                let old_var = vars.remove(i);
                vars.insert(i, var);
                assert(vars@ =~= old(self)@.update(i as int, var));
                Some(old_var.value)
            },
            None => {
                vars.push(var);
                None
            },
        };
        *self = TemplateVars { vars };
        former
    }
}

impl Clone for TemplateVars {
    fn clone(&self) -> (copy: TemplateVars)
        ensures
            copy@ == self@,
    {
        proof {
            use_type_invariant(self);
        }
        let mut vars: Vec<TemplateVar> = Vec::new();
        let mut i: usize = 0;
        while i < self.vars.len()
            invariant
                i <= self.vars@.len(),
                vars@ == self.vars@.take(i as int),
            decreases self.vars@.len() - i,
        {
            vars.push(self.vars[i].clone());
            i = i + 1;
            assert(vars@ =~= self.vars@.take(i as int));
        }
        assert(self.vars@.take(i as int) =~= self.vars@);
        TemplateVars { vars }
    }
}

/// The variables of a vector as pairs of name and value.
pub open spec fn var_views(vars: Seq<TemplateVar>) -> Seq<(Seq<char>, Seq<char>)> {
    vars.map_values(|var: TemplateVar| (var.name@, var.value@))
}

/// What the template engine makes of the source `template`, rendered with
/// one context variable, named `root`, that maps each name of `vars` to its
/// value (the last value of a name that occurs twice); `None` where the
/// engine rejects the template or fails to render it.
pub uninterp spec fn template_rendering(
    template: Seq<char>,
    root: Seq<char>,
    vars: Seq<(Seq<char>, Seq<char>)>,
) -> Option<Seq<char>>;

/// `minijinja::Environment::render_str` on a fresh default environment.
/// Trusted: the outcome depends on the three arguments alone, so it is
/// `template_rendering` of them; nothing is claimed of what it holds.
#[verifier::external_body]
pub(crate) fn render_template(template: &str, root: &str, vars: &Vec<TemplateVar>) -> (out: Option<
    String,
>)
    ensures
        match out {
            Some(text) => template_rendering(template@, root@, var_views(vars@)) == Some(text@),
            None => template_rendering(template@, root@, var_views(vars@)) is None,
        },
{
    let map: BTreeMap<&str, &str> = vars.iter().map(
        |var| (var.name.as_str(), var.value.as_str()),
    ).collect();
    let context = BTreeMap::from([(root, map)]);
    Environment::new().render_str(template, context).ok()
}

/// The name of the variable that holds a message's template source.
pub open spec fn template_key() -> Seq<char> {
    "template"@
}

/// The name under which a template sees its variables.
pub open spec fn context_root() -> Seq<char> {
    "jinjamap"@
}

/// Position of the first variable of `vars`, from `from` on, that is named
/// `template`.
pub open spec fn template_position(vars: Seq<TemplateVar>, from: int) -> Option<int>
    decreases vars.len() - from,
{
    if from < 0 || from >= vars.len() {
        None
    } else if vars[from].name@ == template_key() {
        Some(from)
    } else {
        template_position(vars, from + 1)
    }
}

/// The text of a template message. Its template is the value of the
/// variable named `template`; the template sees the other variables. A
/// message without a template, or with an empty one, is empty text, and so
/// is one that the engine cannot render.
pub open spec fn jinja_text(vars: Seq<TemplateVar>) -> Seq<char> {
    match template_position(vars, 0) {
        None => Seq::empty(),
        Some(i) => if vars[i].value@.len() == 0 {
            Seq::empty()
        } else {
            match template_rendering(vars[i].value@, context_root(), var_views(vars.remove(i))) {
                Some(text) => text,
                None => Seq::empty(),
            }
        },
    }
}

/// Renders a template message. See `jinja_text`.
pub fn jinja_process(variables: &TemplateVars) -> (output: String)
    ensures
        output@ == jinja_text(variables@),
{
    let jinjamap = variables.vars();
    let key = String::from_str("template");
    let mut i: usize = 0;
    while i < jinjamap.len() && !(jinjamap[i].name == key)
        invariant
            i <= jinjamap@.len(),
            key@ == template_key(),
            template_position(jinjamap@, 0) == template_position(jinjamap@, i as int),
        decreases jinjamap@.len() - i,
    {
        i = i + 1;
    }
    if i >= jinjamap.len() {
        return String::new();
    }
    let template_str = &jinjamap[i].value;
    if template_str.as_str().is_empty() {
        return String::new();
    }
    let mut others: Vec<TemplateVar> = Vec::new();
    let mut j: usize = 0;
    while j < jinjamap.len()
        invariant
            i < jinjamap@.len(),
            j <= jinjamap@.len(),
            others@ == if j <= i {
                jinjamap@.take(j as int)
            } else {
                jinjamap@.take(j as int).remove(i as int)
            },
        decreases jinjamap@.len() - j,
    {
        if j != i {
            others.push(jinjamap[j].clone());
        }
        j = j + 1;
        assert(others@ =~= if j <= i {
            jinjamap@.take(j as int)
        } else {
            jinjamap@.take(j as int).remove(i as int)
        });
    }
    assert(jinjamap@.take(j as int) =~= jinjamap@);
    match render_template(template_str.as_str(), "jinjamap", &others) {
        Some(text) => text,
        None => String::new(),
    }
}

} // verus!
