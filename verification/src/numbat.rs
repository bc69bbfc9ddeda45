//! The calculator under the search box: how a query is rephrased for the
//! Numbat interpreter, and what is kept of the answer it prints.

use vstd::prelude::*;

use numbat::markup::Formatter;
use numbat::pretty_print::PrettyPrint;

use crate::chars::{same_str, str_concat};
use crate::strs::{contains, occurs_at, replace, replace_spec};

verus! {

/// Whether `pat` occurs in `s`.
pub open spec fn has(s: Seq<char>, pat: Seq<char>) -> bool {
    exists|i: int| #[trigger] occurs_at(s, pat, i)
}

/// A query rephrased for Numbat: ` and ` becomes ` + `, and a query with
/// ` from now` is read as a time from now.
pub open spec fn rephrase_spec(s: Seq<char>) -> Seq<char> {
    let a = if has(s, " and "@) {
        replace_spec(s, " and "@, " + "@)
    } else {
        s
    };
    if has(a, " from now"@) {
        "now() + "@ + replace_spec(a, " from now"@, ""@)
    } else {
        a
    }
}

/// A query rephrased for Numbat (see `rephrase_spec`).
pub fn rephraser(s: &str) -> (r: String)
    ensures
        r@ == rephrase_spec(s@),
{
    proof {
        reveal_strlit(" and ");
        reveal_strlit(" from now");
    }
    let a = if contains(s, " and ") {
        replace(s, " and ", " + ")
    } else {
        s.to_string()
    };
    if contains(a.as_str(), " from now") {
        let b = replace(a.as_str(), " from now", "");
        str_concat("now() + ", b.as_str())
    } else {
        a
    }
}

/// The kinds of the parts of Numbat's printed answer that are kept.
#[derive(Clone, Copy, Debug, PartialEq, Eq, Structural)]
pub enum FormatKind {
    String,
    Value,
    TypeIdentifier,
    Unit,
    Other,
}

/// An answer as the calculator shows it.
#[derive(Debug)]
pub struct NumbatResult {
    pub equation: String,
    pub result: String,
    pub unit: String,
    pub type_id: String,
}

/// The last part of kind `k` or `k2` among `parts`.
pub open spec fn last_of(parts: Seq<(FormatKind, Seq<char>)>, k: FormatKind, k2: FormatKind) -> Option<Seq<char>>
    decreases parts.len(),
{
    if parts.len() == 0 {
        None
    } else if parts.last().0 == k || parts.last().0 == k2 {
        Some(parts.last().1)
    } else {
        last_of(parts.drop_last(), k, k2)
    }
}

/// The statements joined by spaces.
pub open spec fn join_spaces(s: Seq<Seq<char>>) -> Seq<char>
    decreases s.len(),
{
    if s.len() == 0 {
        Seq::empty()
    } else if s.len() == 1 {
        s[0]
    } else {
        join_spaces(s.drop_last()) + " "@ + s.last()
    }
}

/// The answer kept of Numbat's output: its value (the last string or
/// value part), unit and type (the last of each, else empty), and the
/// printed statements joined by spaces with each `➞` written `to`; none
/// where no part is a value.
pub open spec fn result_spec(statements: Seq<Seq<char>>, parts: Seq<(FormatKind, Seq<char>)>) -> Option<(
    Seq<char>,
    Seq<char>,
    Seq<char>,
    Seq<char>,
)> {
    match last_of(parts, FormatKind::String, FormatKind::Value) {
        None => None,
        Some(v) => Some(
            (
                replace_spec(join_spaces(statements), "➞"@, "to"@),
                v,
                match last_of(parts, FormatKind::Unit, FormatKind::Unit) {
                    Some(u) => u,
                    None => Seq::empty(),
                },
                match last_of(parts, FormatKind::TypeIdentifier, FormatKind::TypeIdentifier) {
                    Some(t) => t,
                    None => Seq::empty(),
                },
            ),
        ),
    }
}

/// The value of an answer.
pub open spec fn result_view(r: NumbatResult) -> (Seq<char>, Seq<char>, Seq<char>, Seq<char>) {
    (r.equation@, r.result@, r.unit@, r.type_id@)
}

fn last_part(parts: &Vec<(FormatKind, String)>, k: FormatKind, k2: FormatKind) -> (r: Option<String>)
    ensures
        match r {
            Some(s) => last_of(parts@.map_values(|p: (FormatKind, String)| (p.0, p.1@)), k, k2) == Some(s@),
            None => last_of(parts@.map_values(|p: (FormatKind, String)| (p.0, p.1@)), k, k2) is None,
        },
{
    let ghost pv = parts@.map_values(|p: (FormatKind, String)| (p.0, p.1@));
    let mut i = parts.len();
    proof {
        assert(pv.take(i as int) =~= pv);
    }
    while i > 0
        invariant
            i <= parts@.len(),
            pv == parts@.map_values(|p: (FormatKind, String)| (p.0, p.1@)),
            last_of(pv, k, k2) == last_of(pv.take(i as int), k, k2),
        decreases i,
    {
        proof {
            assert(pv.take(i as int).drop_last() =~= pv.take(i - 1));
            assert(pv.take(i as int).last() == (parts@[i - 1].0, parts@[i - 1].1@));
        }
        if parts[i - 1].0 == k || parts[i - 1].0 == k2 {
            return Some(parts[i - 1].1.clone());
        }
        i = i - 1;
    }
    None
}

fn join_with_spaces(statements: &Vec<String>) -> (r: String)
    ensures
        r@ == join_spaces(statements@.map_values(|s: String| s@)),
{
    let ghost sv = statements@.map_values(|s: String| s@);
    if statements.len() == 0 {
        return String::new();
    }
    let mut out = statements[0].clone();
    let mut i: usize = 1;
    proof {
        assert(sv.take(1) =~= seq![sv[0]]);
    }
    while i < statements.len()
        invariant
            1 <= i <= statements@.len(),
            sv == statements@.map_values(|s: String| s@),
            out@ == join_spaces(sv.take(i as int)),
        decreases statements.len() - i,
    {
        let a = str_concat(out.as_str(), " ");
        out = str_concat(a.as_str(), statements[i].as_str());
        proof {
            assert(sv.take(i + 1).drop_last() =~= sv.take(i as int));
            assert(sv.take(i + 1).last() == statements@[i as int]@);
        }
        i = i + 1;
    }
    proof {
        assert(sv.take(i as int) =~= sv);
    }
    out
}

/// The answer kept of Numbat's printed `statements` and result `parts`.
pub fn numbat_result(statements: &Vec<String>, parts: &Vec<(FormatKind, String)>) -> (r: Option<NumbatResult>)
    ensures
        match r {
            Some(n) => result_spec(
                statements@.map_values(|s: String| s@),
                parts@.map_values(|p: (FormatKind, String)| (p.0, p.1@)),
            ) == Some(result_view(n)),
            None => result_spec(
                statements@.map_values(|s: String| s@),
                parts@.map_values(|p: (FormatKind, String)| (p.0, p.1@)),
            ) is None,
        },
{
    let value = last_part(parts, FormatKind::String, FormatKind::Value);
    match value {
        None => None,
        Some(result) => {
            let unit = match last_part(parts, FormatKind::Unit, FormatKind::Unit) {
                Some(u) => u,
                None => String::new(),
            };
            let type_id = match last_part(parts, FormatKind::TypeIdentifier, FormatKind::TypeIdentifier) {
                Some(t) => t,
                None => String::new(),
            };
            let joined = join_with_spaces(statements);
            proof {
                reveal_strlit("➞");
            }
            let equation = replace(joined.as_str(), "➞", "to");
            Some(NumbatResult { equation, result, unit, type_id })
        },
    }
}

/// The kind of an answer part, by the name Numbat gives its format type.
pub open spec fn format_kind_spec(name: Seq<char>) -> FormatKind {
    if name == "String"@ {
        FormatKind::String
    } else if name == "Value"@ {
        FormatKind::Value
    } else if name == "TypeIdentifier"@ {
        FormatKind::TypeIdentifier
    } else if name == "Unit"@ {
        FormatKind::Unit
    } else {
        FormatKind::Other
    }
}

/// The kind of an answer part whose format type is named `name`.
pub fn format_kind(name: &str) -> (r: FormatKind)
    ensures
        r == format_kind_spec(name@),
{
    if same_str(name, "String") {
        FormatKind::String
    } else if same_str(name, "Value") {
        FormatKind::Value
    } else if same_str(name, "TypeIdentifier") {
        FormatKind::TypeIdentifier
    } else if same_str(name, "Unit") {
        FormatKind::Unit
    } else {
        FormatKind::Other
    }
}

/// The parts of an answer, each by the name of its format type, with their
/// kinds.
pub fn kind_parts(parts: Vec<(String, String)>) -> (r: Vec<(FormatKind, String)>)
    ensures
        r@.len() == parts@.len(),
        forall|i: int|
            0 <= i < parts@.len() ==> #[trigger] r@[i].0 == format_kind_spec(parts@[i].0@) && r@[i].1@ == parts@[i].1@,
{
    let mut r: Vec<(FormatKind, String)> = Vec::new();
    let mut i: usize = 0;
    while i < parts.len()
        invariant
            i <= parts@.len(),
            r@.len() == i,
            forall|j: int|
                0 <= j < i ==> #[trigger] r@[j].0 == format_kind_spec(parts@[j].0@) && r@[j].1@ == parts@[j].1@,
        decreases parts.len() - i,
    {
        let k = format_kind(parts[i].0.as_str());
        r.push((k, parts[i].1.clone()));
        i = i + 1;
    }
    r
}

#[verifier::external_type_specification]
#[verifier::external_body]
pub struct ExNumbatContext(numbat::Context);

/// `numbat::Context::new` with the builtin module importer. Nothing is
/// claimed of the context.
#[verifier::external_body]
fn numbat_context() -> numbat::Context {
    numbat::Context::new(numbat::module_importer::BuiltinModuleImporter::default())
}

/// What the interpreter answered: the statements it printed and the parts
/// of its result, each by the name of its format type, or `None` for an
/// error.
pub open spec fn heard_view(r: Option<(Vec<String>, Vec<(String, String)>)>) -> Option<(Seq<Seq<char>>, Seq<(Seq<char>, Seq<char>)>)> {
    match r {
        Some((statements, parts)) => Some(
            (
                statements@.map_values(|s: String| s@),
                parts@.map_values(|p: (String, String)| (p.0@, p.1@)),
            ),
        ),
        None => None,
    }
}

/// The calculator: a Numbat context, and a model of it: the code it was
/// told, in order, whether it loads currencies when asked for one, and what
/// it answered last.
pub struct Calculator {
    pub ctx: numbat::Context,
    /// The code given to the interpreter, in order.
    pub told: Ghost<Seq<Seq<char>>>,
    /// Whether currencies are loaded on demand.
    pub currency: Ghost<bool>,
    /// What the interpreter answered last.
    pub heard: Ghost<Option<(Seq<Seq<char>>, Seq<(Seq<char>, Seq<char>)>)>>,
}

/// `numbat::Context::load_currency_module_on_demand(yes)` on the
/// calculator's context; claimed: the model records that currencies are now
/// loaded on demand exactly when `yes`, and nothing else changes in it.
#[verifier::external_body]
fn load_currency_module_on_demand(calc: &mut Calculator, yes: bool)
    ensures
        final(calc).currency@ == yes,
        final(calc).told == old(calc).told,
        final(calc).heard == old(calc).heard,
{
    calc.ctx.load_currency_module_on_demand(yes)
}

/// `numbat::Context::interpret` of `code` as text on the calculator's
/// context, its statements printed plainly (`PlainTextFormatter`), and the
/// parts of its result's markup (`InterpreterResult::to_markup` for the last
/// statement, with type information) as the name of each part's format type
/// and its text; `None` where Numbat reports an error. Claimed: the model
/// records that `code` was told and what came back. Nothing is claimed of
/// the answer itself: it depends on what the context was told before, on
/// the clock and on exchange rates. Every code is admitted: Numbat reports
/// the errors it finds as `Err`, and that its interpreter returns on every
/// input is trusted, not shown.
#[verifier::external_body]
fn interpret(calc: &mut Calculator, code: &str) -> (r: Option<(Vec<String>, Vec<(String, String)>)>)
    ensures
        final(calc).told@ == old(calc).told@.push(code@),
        final(calc).currency == old(calc).currency,
        final(calc).heard@ == heard_view(r),
{
    let (statements, result) = calc.ctx.interpret(code, numbat::resolver::CodeSource::Text).ok()?;
    let printed = statements.iter().map(|s| numbat::markup::PlainTextFormatter.format(&s.pretty_print(), false).to_string()).collect();
    let markup = result.to_markup(statements.last(), calc.ctx.dimension_registry(), true, true, &numbat::FormatOptions::default());
    Some((printed, markup.0.iter().map(|p| (format!("{:?}", p.1), p.2.to_string())).collect()))
}

/// The answer the calculator keeps of what the interpreter answered:
/// `numbat_result` of the printed statements and the parts, each with its
/// kind; none for an error.
pub open spec fn answer_spec(heard: Option<(Seq<Seq<char>>, Seq<(Seq<char>, Seq<char>)>)>) -> Option<
    (Seq<char>, Seq<char>, Seq<char>, Seq<char>),
> {
    match heard {
        Some((statements, parts)) => result_spec(
            statements,
            parts.map_values(|p: (Seq<char>, Seq<char>)| (format_kind_spec(p.0), p.1)),
        ),
        None => None,
    }
}

/// The value of an optional answer.
pub open spec fn opt_result_view(r: Option<NumbatResult>) -> Option<(Seq<char>, Seq<char>, Seq<char>, Seq<char>)> {
    match r {
        Some(n) => Some(result_view(n)),
        None => None,
    }
}

impl Calculator {
    /// A calculator that loads currencies on demand and has been told to
    /// use Numbat's prelude.
    pub fn new() -> (r: Calculator)
        ensures
            r.told@ == seq!["use prelude"@],
            r.currency@,
    {
        let mut calc = Calculator {
            ctx: numbat_context(),
            told: Ghost(Seq::empty()),
            currency: Ghost(false),
            heard: Ghost(None),
        };
        load_currency_module_on_demand(&mut calc, true);
        let _ = interpret(&mut calc, "use prelude");
        proof {
            assert(calc.told@ =~= seq!["use prelude"@]);
        }
        calc
    }

    /// The answer to the query `query`: the query is rephrased and given to
    /// Numbat, and what is kept of its answer (`numbat_result`) is returned;
    /// none where Numbat refuses it or gives no value. Every query is
    /// admitted; that Numbat's interpreter returns on every input rests on
    /// the trusted `interpret`.
    pub fn evaluate(&mut self, query: &str) -> (r: Option<NumbatResult>)
        ensures
            final(self).told@ == old(self).told@.push(rephrase_spec(query@)),
            final(self).currency == old(self).currency,
            opt_result_view(r) == answer_spec(final(self).heard@),
    {
        let code = rephraser(query);
        match interpret(self, code.as_str()) {
            Some((statements, parts)) => {
                let ghost pv0 = parts@.map_values(|p: (String, String)| (p.0@, p.1@));
                let kinds = kind_parts(parts);
                let r = numbat_result(&statements, &kinds);
                proof {
                    let pv = kinds@.map_values(|p: (FormatKind, String)| (p.0, p.1@));
                    assert(pv =~= pv0.map_values(|p: (Seq<char>, Seq<char>)| (format_kind_spec(p.0), p.1)));
                }
                r
            },
            None => None,
        }
    }
}

} // verus!
