//! The template-substitution capability: variable values, the substitution
//! context, and the trusted boundary to the expression engine.
//!
//! The expression language itself (filters, conditionals, loops) is not
//! reimplemented here; `render_text` hands a string and a context to tera and
//! the contracts speak of the outcome through the name `render_of`.

use vstd::prelude::*;

verus! {

/// A value a template variable can take: a string, a number, a boolean, or a
/// list of strings or numbers.
#[derive(Debug, Clone)]
pub enum Value {
    Str(String),
    Int(i64),
    Bool(bool),
    StrList(Vec<String>),
    IntList(Vec<i64>),
}

/// The mathematical shape of a `Value`, used in specifications.
pub enum ValueV {
    Str(Seq<char>),
    Int(int),
    Bool(bool),
    StrList(Seq<Seq<char>>),
    IntList(Seq<int>),
}

impl View for Value {
    type V = ValueV;

    open spec fn view(&self) -> ValueV {
        match self {
            Value::Str(s) => ValueV::Str(s@),
            Value::Int(n) => ValueV::Int(*n as int),
            Value::Bool(b) => ValueV::Bool(*b),
            Value::StrList(l) => ValueV::StrList(l.deep_view()),
            Value::IntList(l) => (ValueV::IntList(l@.map_values(|x: i64| x as int))),
        }
    }
}

/// The mapping a sequence of name/value pairs denotes; a later pair with the
/// same name wins, as repeated insertion does.
pub open spec fn map_of_pairs(pairs: Seq<(String, Value)>) -> Map<Seq<char>, ValueV>
    decreases pairs.len(),
{
    if pairs.len() == 0 {
        Map::empty()
    } else {
        map_of_pairs(pairs.drop_last()).insert(pairs.last().0@, pairs.last().1@)
    }
}

/// An immutable mapping of variable name to value, consumed by every
/// substitution. It is built once, before rendering starts, and viewed as a
/// `Map<Seq<char>, ValueV>`.
pub struct Context {
    pairs: Vec<(String, Value)>,
}

impl View for Context {
    type V = Map<Seq<char>, ValueV>;

    closed spec fn view(&self) -> Map<Seq<char>, ValueV> {
        map_of_pairs(self.pairs@)
    }
}

impl Context {
    /// An empty context.
    pub fn new() -> (r: Context)
        ensures
            r@ == Map::<Seq<char>, ValueV>::empty(),
    {
        Context { pairs: Vec::new() }
    }

    /// Binds `name` to `value`, replacing any earlier binding of `name`.
    pub fn insert(&mut self, name: String, value: Value)
        ensures
            final(self)@ == old(self)@.insert(name@, value@),
    {
        let ghost before = self.pairs@;
        let ghost n = name@;
        let ghost v = value@;
        self.pairs.push((name, value));
        proof {
            assert(self.pairs@.drop_last() =~= before);
            assert(self.pairs@.last().0@ == n && self.pairs@.last().1@ == v);
        }
    }
}

/// What the expression engine returns for a given template text and context:
/// either the substituted text or the text of the reported error. The outcome
/// is a function of the two arguments alone.
pub uninterp spec fn render_of(text: Seq<char>, ctx: Map<Seq<char>, ValueV>) -> Result<
    Seq<char>,
    Seq<char>,
>;

/// Substitutes every template expression in `text` using `ctx`.
///
/// Relies on tera's `Tera::render_str` (a one-off render with autoescaping
/// off): its outcome depends only on the template text and the context, since
/// the built-in functions, filters and tests it may evaluate are all
/// deterministic.
#[verifier::external_body]
pub(crate) fn render_text(text: &str, ctx: &Context) -> (r: Result<String, String>)
    ensures
        r is Ok <==> render_of(text@, ctx@) is Ok,
        r is Ok ==> r->Ok_0@ == render_of(text@, ctx@)->Ok_0,
        r is Err ==> r->Err_0@ == render_of(text@, ctx@)->Err_0,
{
    let tera = tera::Tera::new();
    let mut c = tera::Context::new();
    for (k, v) in ctx.pairs.iter() {
        match v {
            Value::Str(s) => c.insert(k.clone(), s),
            Value::Int(n) => c.insert(k.clone(), n),
            Value::Bool(b) => c.insert(k.clone(), b),
            Value::StrList(l) => c.insert(k.clone(), l),
            Value::IntList(l) => c.insert(k.clone(), l),
        }
    }
    match tera.render_str(text, &c, false) {
        Ok(s) => Ok(s),
        Err(e) => Err(e.to_string()),
    }
}

} // verus!
