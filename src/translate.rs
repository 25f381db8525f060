use vstd::prelude::*;
use crate::error::TranslateError;
use crate::pattern::{NodePattern, PatternModel, opt_view, prop_view, label_view};
use crate::value::{Value, ValueModel};

verus! {

/// One item of a select list: the wildcard, or the return item at this
/// index, passed through unchanged.
#[derive(Debug, Clone, Copy, PartialEq, Eq, Structural)]
pub enum Projection {
    Wildcard,
    Keep(usize),
}

/// A select statement over the pattern's table.
#[derive(Debug)]
pub struct SelectPlan {
    pub table: String,
    pub alias: Option<String>,
    pub projection: Vec<Projection>,
}

/// An insert of one row into the pattern's table.
#[derive(Debug)]
pub struct InsertPlan {
    pub table: String,
    pub columns: Vec<String>,
    pub values: Vec<Value>,
}

pub struct SelectModel {
    pub table: Seq<char>,
    pub alias: Option<Seq<char>>,
    pub projection: Seq<Projection>,
}

pub struct InsertModel {
    pub table: Seq<char>,
    pub columns: Seq<Seq<char>>,
    pub values: Seq<ValueModel>,
}

pub open spec fn value_view(v: Value) -> ValueModel {
    v@
}

impl View for SelectPlan {
    type V = SelectModel;

    open spec fn view(&self) -> SelectModel {
        SelectModel {
            table: self.table@,
            alias: opt_view(self.alias),
            projection: self.projection@,
        }
    }
}

impl View for InsertPlan {
    type V = InsertModel;

    open spec fn view(&self) -> InsertModel {
        InsertModel {
            table: self.table@,
            columns: self.columns@.map_values(|c: String| label_view(c)),
            values: self.values@.map_values(|v: Value| value_view(v)),
        }
    }
}

/// The select list for return items whose bare names are `bare` (`None`
/// for an item that is no bare name): an item that names the pattern's
/// variable becomes the wildcard, every other item is kept.
pub open spec fn projection_of(bare: Seq<Option<Seq<char>>>, var: Option<Seq<char>>) -> Seq<
    Projection,
> {
    Seq::new(
        bare.len(),
        |i: int|
            if var is Some && bare[i] == var {
                Projection::Wildcard
            } else {
                Projection::Keep(i as usize)
            },
    )
}

/// A match over `p`: its first label is the table, its variable the alias.
pub open spec fn translate_match_spec(p: PatternModel, bare: Seq<Option<Seq<char>>>) -> Result<
    SelectModel,
    TranslateError,
> {
    if p.labels.len() == 0 {
        Err(TranslateError::MissingLabel)
    } else {
        Ok(
            SelectModel {
                table: p.labels[0],
                alias: p.variable,
                projection: projection_of(bare, p.variable),
            },
        )
    }
}

/// A create of `p`: its first label is the table, its property keys the
/// columns and its property values the row, in the order written.
pub open spec fn translate_create_spec(p: PatternModel) -> Result<InsertModel, TranslateError> {
    if p.labels.len() == 0 {
        Err(TranslateError::MissingLabel)
    } else if p.properties.len() == 0 {
        Err(TranslateError::NoProperties)
    } else {
        Ok(
            InsertModel {
                table: p.labels[0],
                columns: keys_of(p.properties),
                values: values_of(p.properties),
            },
        )
    }
}

pub open spec fn select_result_view(r: Result<SelectPlan, TranslateError>) -> Result<
    SelectModel,
    TranslateError,
> {
    match r {
        Ok(p) => Ok(p@),
        Err(e) => Err(e),
    }
}

pub open spec fn insert_result_view(r: Result<InsertPlan, TranslateError>) -> Result<
    InsertModel,
    TranslateError,
> {
    match r {
        Ok(p) => Ok(p@),
        Err(e) => Err(e),
    }
}

pub open spec fn names_view(v: Seq<Option<String>>) -> Seq<Option<Seq<char>>> {
    v.map_values(|o: Option<String>| opt_view(o))
}

pub fn copy_name(o: &Option<String>) -> (r: Option<String>)
    ensures
        opt_view(r) == opt_view(*o),
{
    match o {
        Some(v) => Some(v.clone()),
        None => None,
    }
}

pub fn copy_value(v: &Value) -> (r: Value)
    ensures
        r@ == v@,
{
    match v {
        Value::Str(s) => Value::Str(s.clone()),
        Value::Integer(n) => Value::Integer(*n),
        Value::Float(s) => Value::Float(s.clone()),
        Value::Boolean(b) => Value::Boolean(*b),
        Value::Identifier(s) => Value::Identifier(s.clone()),
    }
}

/// Whether a return item with bare name `bare` names the variable `var`.
pub fn names_variable(bare: &Option<String>, var: &Option<String>) -> (r: bool)
    ensures
        r == (opt_view(*var) is Some && opt_view(*bare) == opt_view(*var)),
{
    match var {
        Some(v) => match bare {
            Some(b) => {
                let r = b.eq(v);
                proof {
                    if b@ == v@ {
                        assert(opt_view(*bare) == opt_view(*var));
                    }
                }
                r
            },
            None => false,
        },
        None => false,
    }
}

/// The select list for return items with the bare names `bare`.
pub fn convert_return_items(bare: &Vec<Option<String>>, var: &Option<String>) -> (r: Vec<
    Projection,
>)
    ensures
        r@ == projection_of(names_view(bare@), opt_view(*var)),
{
    let ghost want = projection_of(names_view(bare@), opt_view(*var));
    let mut out: Vec<Projection> = Vec::new();
    let mut i: usize = 0;
    while i < bare.len()
        invariant
            i <= bare@.len(),
            want == projection_of(names_view(bare@), opt_view(*var)),
            out@ =~= want.subrange(0, i as int),
        decreases bare@.len() - i,
    {
        if names_variable(&bare[i], var) {
            out.push(Projection::Wildcard);
        } else {
            out.push(Projection::Keep(i));
        }
        i = i + 1;
    }
    out
}

/// Turns a match of `p`, returning items with the bare names `bare`, into
/// a select plan.
pub fn translate_match(p: &NodePattern, bare: &Vec<Option<String>>) -> (r: Result<
    SelectPlan,
    TranslateError,
>)
    ensures
        select_result_view(r) == translate_match_spec(p@, names_view(bare@)),
{
    if p.labels.len() == 0 {
        return Err(TranslateError::MissingLabel);
    }
    let plan = SelectPlan {
        table: p.labels[0].clone(),
        alias: copy_name(&p.variable),
        projection: convert_return_items(bare, &p.variable),
    };
    Ok(plan)
}

/// The keys of properties, in order.
pub open spec fn keys_of(props: Seq<(Seq<char>, ValueModel)>) -> Seq<Seq<char>> {
    props.map_values(|q: (Seq<char>, ValueModel)| q.0)
}

/// The values of properties, in order.
pub open spec fn values_of(props: Seq<(Seq<char>, ValueModel)>) -> Seq<ValueModel> {
    props.map_values(|q: (Seq<char>, ValueModel)| q.1)
}

/// Splits properties into their keys and their values, both in order.
pub fn split_properties(props: &Vec<(String, Value)>) -> (r: (Vec<String>, Vec<Value>))
    ensures
        r.0@.map_values(|c: String| label_view(c)) == keys_of(
            props@.map_values(|p: (String, Value)| prop_view(p)),
        ),
        r.1@.map_values(|v: Value| value_view(v)) == values_of(
            props@.map_values(|p: (String, Value)| prop_view(p)),
        ),
{
    let ghost pv = props@.map_values(|p: (String, Value)| prop_view(p));
    let mut columns: Vec<String> = Vec::new();
    let mut values: Vec<Value> = Vec::new();
    let mut i: usize = 0;
    while i < props.len()
        invariant
            i <= props@.len(),
            pv == props@.map_values(|p: (String, Value)| prop_view(p)),
            columns@.map_values(|c: String| label_view(c)) =~= keys_of(pv.subrange(0, i as int)),
            values@.map_values(|v: Value| value_view(v)) =~= values_of(pv.subrange(0, i as int)),
        decreases props@.len() - i,
    {
        let ghost c0 = columns@.map_values(|c: String| label_view(c));
        let ghost v0 = values@.map_values(|v: Value| value_view(v));
        let key = props[i].0.clone();
        let value = copy_value(&props[i].1);
        let ghost q = pv[i as int];
        columns.push(key);
        values.push(value);
        proof {
            assert(q == prop_view(props@[i as int]));
            assert(columns@.map_values(|c: String| label_view(c)) =~= c0.push(q.0));
            assert(values@.map_values(|v: Value| value_view(v)) =~= v0.push(q.1));
            assert(pv.subrange(0, i + 1) =~= pv.subrange(0, i as int).push(q));
            assert(keys_of(pv.subrange(0, i + 1)) =~= keys_of(pv.subrange(0, i as int)).push(q.0));
            assert(values_of(pv.subrange(0, i + 1)) =~= values_of(pv.subrange(0, i as int)).push(q.1));
        }
        i = i + 1;
    }
    proof {
        assert(pv.subrange(0, pv.len() as int) =~= pv);
    }
    (columns, values)
}

/// Turns a create of `p` into an insert plan.
pub fn translate_create(p: &NodePattern) -> (r: Result<InsertPlan, TranslateError>)
    ensures
        insert_result_view(r) == translate_create_spec(p@),
{
    if p.labels.len() == 0 {
        return Err(TranslateError::MissingLabel);
    }
    if p.properties.len() == 0 {
        return Err(TranslateError::NoProperties);
    }
    let (columns, values) = split_properties(&p.properties);
    Ok(InsertPlan { table: p.labels[0].clone(), columns, values })
}

} // verus!
