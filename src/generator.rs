//! The generator's rules, on a plain description of a record type: which
//! fields are filterable, what the filter type and its members and methods are
//! called, which markers carry the record's generic parameters, and which type
//! parameters are bounded. Reading a definition and writing code from the plan
//! is left to the caller.
use vstd::prelude::*;
use vstd::string::StringExecFns;

verus! {

/// The shape of the definition that the generator was given.
pub enum Shape {
    NamedStruct,
    TupleStruct,
    UnitStruct,
    Enum,
    Union,
}

/// The value of an option of a field's annotation.
pub enum OptionValue {
    /// A string literal.
    Text(String),
    /// Anything else: another literal, a path, or no value at all.
    Other,
}

/// One `key = value` option of a field's annotation.
pub struct AttrOption {
    pub key: String,
    pub value: OptionValue,
}

/// A field of the record: its name, the positions of the record's type
/// parameters that its type names, and the options of its annotation when it
/// carries one (every option of every annotation on it, in order).
pub struct FieldSchema {
    pub name: String,
    pub type_params: Vec<usize>,
    pub annotation: Option<Vec<AttrOption>>,
}

/// The kind of one generic parameter of the record.
#[derive(PartialEq, Eq, Structural, Clone, Copy)]
pub enum ParamKind {
    Lifetime,
    Type,
    Const,
}

/// What the generator is given of a record type.
pub struct RecordSchema {
    pub name: String,
    pub shape: Shape,
    pub params: Vec<ParamKind>,
    pub fields: Vec<FieldSchema>,
}

/// Why no filter can be generated.
pub enum GenError {
    /// The definition is not a struct with named fields.
    NotNamedStruct,
    /// An annotation holds an option other than `plural`; its key.
    UnknownOption(String),
    /// `plural` is not given as a string literal.
    PluralNotText,
    /// `plural` is given twice for one field.
    DuplicatePlural,
}

/// The plan of one filterable field.
pub struct FieldPlan {
    /// Its position among the record's fields.
    pub index: usize,
    /// The field's own name.
    pub field: String,
    /// The filter's member that holds its accepted values: the plural form.
    pub member: String,
    /// The method that adds one value.
    pub with_singular: String,
    /// The method that adds many values.
    pub with_plural: String,
}

pub struct FieldPlanView {
    pub index: int,
    pub field: Seq<char>,
    pub member: Seq<char>,
    pub with_singular: Seq<char>,
    pub with_plural: Seq<char>,
}

impl View for FieldPlan {
    type V = FieldPlanView;

    open spec fn view(&self) -> FieldPlanView {
        FieldPlanView {
            index: self.index as int,
            field: self.field@,
            member: self.member@,
            with_singular: self.with_singular@,
            with_plural: self.with_plural@,
        }
    }
}

/// A marker member that carries one generic parameter of the record: a
/// lifetime, or a type.
#[derive(PartialEq, Eq, Structural, Clone, Copy)]
pub struct Marker {
    /// The parameter's position among the record's generic parameters.
    pub index: usize,
    pub lifetime: bool,
}

/// What the generator emits for a record type.
pub struct FilterPlan {
    /// The filter type's name.
    pub name: String,
    /// The filterable fields, in the order in which they are declared.
    pub fields: Vec<FieldPlan>,
    /// One marker per lifetime or type parameter, in order.
    pub markers: Vec<Marker>,
    /// The positions of the type parameters that a filterable field uses, in
    /// order: they must support the comparison of accepted values.
    pub bounded: Vec<usize>,
}

/// The name of the method that adds values through the member or field `name`.
pub open spec fn with_name(name: Seq<char>) -> Seq<char> {
    "with_"@ + name
}

/// The plural form of a field's name: the one given, else the name with an `s`.
pub open spec fn plural_of(name: Seq<char>, plural: Option<Seq<char>>) -> Seq<char> {
    match plural {
        Some(p) => p,
        None => name + "s"@,
    }
}

/// The filter type's name for the record type `name`.
pub open spec fn filter_name_of(name: Seq<char>) -> Seq<char> {
    name + "Filter"@
}

/// Reads the options of one field's annotation: the plural given, if any, or
/// the error of the first option that is wrong.
pub open spec fn read_options(opts: Seq<AttrOption>) -> Result<Option<Seq<char>>, GenError>
    decreases opts.len(),
{
    if opts.len() == 0 {
        Ok(None)
    } else {
        match read_options(opts.drop_last()) {
            Err(e) => Err(e),
            Ok(prev) => {
                let o = opts.last();
                if o.key@ != "plural"@ {
                    Err(GenError::UnknownOption(o.key))
                } else {
                    match o.value {
                        OptionValue::Text(t) => if prev is Some {
                            Err(GenError::DuplicatePlural)
                        } else {
                            Ok(Some(t@))
                        },
                        OptionValue::Other => Err(GenError::PluralNotText),
                    }
                }
            },
        }
    }
}

/// The plan of the field at `index`, whose plural option is `plural`.
pub open spec fn field_plan(index: int, name: Seq<char>, plural: Option<Seq<char>>) -> FieldPlanView {
    FieldPlanView {
        index,
        field: name,
        member: plural_of(name, plural),
        with_singular: with_name(name),
        with_plural: with_name(plural_of(name, plural)),
    }
}

/// The plans of the annotated fields among `fields`, in order, or the error of
/// the first annotated field whose options are wrong.
pub open spec fn plan_fields(fields: Seq<FieldSchema>) -> Result<Seq<FieldPlanView>, GenError>
    decreases fields.len(),
{
    if fields.len() == 0 {
        Ok(Seq::empty())
    } else {
        match plan_fields(fields.drop_last()) {
            Err(e) => Err(e),
            Ok(done) => match fields.last().annotation {
                None => Ok(done),
                Some(opts) => match read_options(opts@) {
                    Err(e) => Err(e),
                    Ok(plural) => Ok(done.push(field_plan(fields.len() - 1, fields.last().name@, plural))),
                },
            },
        }
    }
}

/// One marker for each lifetime and type parameter, in order.
pub open spec fn plan_markers(params: Seq<ParamKind>) -> Seq<Marker>
    decreases params.len(),
{
    if params.len() == 0 {
        Seq::empty()
    } else {
        let done = plan_markers(params.drop_last());
        let index = (params.len() - 1) as usize;
        match params.last() {
            ParamKind::Lifetime => done.push(Marker { index, lifetime: true }),
            ParamKind::Type => done.push(Marker { index, lifetime: false }),
            ParamKind::Const => done,
        }
    }
}

/// Some filterable field's type names the type parameter at position `i`.
pub open spec fn used_by_filterable(fields: Seq<FieldSchema>, i: usize) -> bool {
    exists|k: int| 0 <= k < fields.len() && fields[k].annotation is Some && (#[trigger] fields[k]).type_params@.contains(i)
}

/// The positions of the type parameters that a filterable field uses, in order.
pub open spec fn bounded_params(params: Seq<ParamKind>, fields: Seq<FieldSchema>) -> Seq<usize>
    decreases params.len(),
{
    if params.len() == 0 {
        Seq::empty()
    } else {
        let done = bounded_params(params.drop_last(), fields);
        let i = (params.len() - 1) as usize;
        if params.last() == ParamKind::Type && used_by_filterable(fields, i) {
            done.push(i)
        } else {
            done
        }
    }
}

/// An error in the first `n` options is the error of them all.
proof fn lemma_read_options_prefix_err(opts: Seq<AttrOption>, n: int)
    requires
        0 <= n <= opts.len(),
        read_options(opts.subrange(0, n)) is Err,
    ensures
        read_options(opts) == read_options(opts.subrange(0, n)),
    decreases opts.len() - n,
{
    if n < opts.len() {
        assert(opts.drop_last().subrange(0, n) =~= opts.subrange(0, n));
        lemma_read_options_prefix_err(opts.drop_last(), n);
    } else {
        assert(opts.subrange(0, n) =~= opts);
    }
}

/// The plural option given by the options of one annotation.
pub fn read_plural(opts: &Vec<AttrOption>) -> (r: Result<Option<String>, GenError>)
    ensures
        match (r, read_options(opts@)) {
            (Ok(Some(p)), Ok(Some(q))) => p@ == q,
            (Ok(None), Ok(None)) => true,
            (Err(e), Err(f)) => e == f,
            _ => false,
        },
{
    let plural_key = String::from_str("plural");
    let mut plural: Option<String> = None;
    let mut i: usize = 0;
    while i < opts.len()
        invariant
            0 <= i <= opts@.len(),
            plural_key@ == "plural"@,
            match read_options(opts@.subrange(0, i as int)) {
                Ok(Some(q)) => plural is Some && plural.unwrap()@ == q,
                Ok(None) => plural is None,
                Err(_) => false,
            },
        decreases opts@.len() - i,
    {
        let o = &opts[i];
        assert(opts@.subrange(0, i + 1).drop_last() =~= opts@.subrange(0, i as int));
        if o.key != plural_key {
            proof {
                lemma_read_options_prefix_err(opts@, i + 1);
            }
            return Err(GenError::UnknownOption(o.key.clone()));
        }
        match &o.value {
            OptionValue::Text(t) => {
                if plural.is_some() {
                    proof {
                        lemma_read_options_prefix_err(opts@, i + 1);
                    }
                    return Err(GenError::DuplicatePlural);
                }
                plural = Some(t.clone());
            },
            OptionValue::Other => {
                proof {
                    lemma_read_options_prefix_err(opts@, i + 1);
                }
                return Err(GenError::PluralNotText);
            },
        }
        i = i + 1;
    }
    assert(opts@.subrange(0, i as int) =~= opts@);
    Ok(plural)
}

/// An error among the first `n` fields is the error of them all.
proof fn lemma_plan_fields_prefix_err(fields: Seq<FieldSchema>, n: int)
    requires
        0 <= n <= fields.len(),
        plan_fields(fields.subrange(0, n)) is Err,
    ensures
        plan_fields(fields) == plan_fields(fields.subrange(0, n)),
    decreases fields.len() - n,
{
    if n < fields.len() {
        assert(fields.drop_last().subrange(0, n) =~= fields.subrange(0, n));
        lemma_plan_fields_prefix_err(fields.drop_last(), n);
    } else {
        assert(fields.subrange(0, n) =~= fields);
    }
}

/// The name of the method that adds values through `name`.
fn make_with_name(name: &String) -> (r: String)
    ensures
        r@ == with_name(name@),
{
    String::from_str("with_").concat(name.as_str())
}

/// The plans of the annotated fields, in order.
fn plan_field_list(fields: &Vec<FieldSchema>) -> (r: Result<Vec<FieldPlan>, GenError>)
    ensures
        match (r, plan_fields(fields@)) {
            (Ok(p), Ok(q)) => p@.map_values(|f: FieldPlan| f@) == q,
            (Err(e), Err(f)) => e == f,
            _ => false,
        },
{
    let mut planned: Vec<FieldPlan> = Vec::new();
    let mut i: usize = 0;
    while i < fields.len()
        invariant
            0 <= i <= fields@.len(),
            match plan_fields(fields@.subrange(0, i as int)) {
                Ok(q) => planned@.map_values(|f: FieldPlan| f@) == q,
                Err(_) => false,
            },
        decreases fields@.len() - i,
    {
        let field = &fields[i];
        assert(fields@.subrange(0, i + 1).drop_last() =~= fields@.subrange(0, i as int));
        match &field.annotation {
            None => {},
            Some(opts) => {
                match read_plural(opts) {
                    Err(e) => {
                        proof {
                            lemma_plan_fields_prefix_err(fields@, i + 1);
                        }
                        return Err(e);
                    },
                    Ok(plural) => {
                        let member = match plural {
                            Some(p) => p,
                            None => field.name.clone().concat("s"),
                        };
                        let with_singular = make_with_name(&field.name);
                        let with_plural = make_with_name(&member);
                        let ghost before = planned@;
                        planned.push(
                            FieldPlan {
                                index: i,
                                field: field.name.clone(),
                                member,
                                with_singular,
                                with_plural,
                            },
                        );
                        assert(planned@.map_values(|f: FieldPlan| f@) =~= before.map_values(
                            |f: FieldPlan| f@,
                        ).push(planned@.last()@)) by {
                            assert(planned@.len() == before.len() + 1);
                        }
                    },
                }
            },
        }
        i = i + 1;
    }
    assert(fields@.subrange(0, i as int) =~= fields@);
    Ok(planned)
}

/// One marker for each lifetime and type parameter, in order.
fn plan_marker_list(params: &Vec<ParamKind>) -> (r: Vec<Marker>)
    ensures
        r@ == plan_markers(params@),
{
    let mut markers: Vec<Marker> = Vec::new();
    let mut i: usize = 0;
    while i < params.len()
        invariant
            0 <= i <= params@.len(),
            markers@ == plan_markers(params@.subrange(0, i as int)),
        decreases params@.len() - i,
    {
        assert(params@.subrange(0, i + 1).drop_last() =~= params@.subrange(0, i as int));
        match params[i] {
            ParamKind::Lifetime => markers.push(Marker { index: i, lifetime: true }),
            ParamKind::Type => markers.push(Marker { index: i, lifetime: false }),
            ParamKind::Const => {},
        }
        i = i + 1;
    }
    assert(params@.subrange(0, i as int) =~= params@);
    markers
}

/// Whether some filterable field's type names the type parameter at `i`.
fn used_by_filterable_field(fields: &Vec<FieldSchema>, i: usize) -> (r: bool)
    ensures
        r == used_by_filterable(fields@, i),
{
    let mut k: usize = 0;
    while k < fields.len()
        invariant
            0 <= k <= fields@.len(),
            forall|j: int| 0 <= j < k ==> !(fields@[j].annotation is Some && (#[trigger] fields@[j]).type_params@.contains(i)),
        decreases fields@.len() - k,
    {
        let field = &fields[k];
        if field.annotation.is_some() {
            let mut m: usize = 0;
            while m < field.type_params.len()
                invariant
                    0 <= k < fields@.len(),
                    *field == fields@[k as int],
                    field.annotation is Some,
                    0 <= m <= field.type_params@.len(),
                    forall|j: int| 0 <= j < m ==> field.type_params@[j] != i,
                decreases field.type_params@.len() - m,
            {
                if field.type_params[m] == i {
                    assert(field.type_params@[m as int] == i);
                    assert(fields@[k as int].type_params@.contains(i));
                    return true;
                }
                m = m + 1;
            }
        }
        k = k + 1;
    }
    false
}

/// The positions of the type parameters that a filterable field uses, in order.
fn bounded_param_list(params: &Vec<ParamKind>, fields: &Vec<FieldSchema>) -> (r: Vec<usize>)
    ensures
        r@ == bounded_params(params@, fields@),
{
    let mut bounded: Vec<usize> = Vec::new();
    let mut i: usize = 0;
    while i < params.len()
        invariant
            0 <= i <= params@.len(),
            bounded@ == bounded_params(params@.subrange(0, i as int), fields@),
        decreases params@.len() - i,
    {
        assert(params@.subrange(0, i + 1).drop_last() =~= params@.subrange(0, i as int));
        if params[i] == ParamKind::Type && used_by_filterable_field(fields, i) {
            bounded.push(i);
        }
        i = i + 1;
    }
    assert(params@.subrange(0, i as int) =~= params@);
    bounded
}

/// Plans the filter of the record type `input`: it must be a struct with named
/// fields, and each annotated field's options must be well formed.
pub fn filter(input: &RecordSchema) -> (r: Result<FilterPlan, GenError>)
    ensures
        !(input.shape is NamedStruct) ==> r is Err && r->Err_0 is NotNamedStruct,
        input.shape is NamedStruct ==> match (r, plan_fields(input.fields@)) {
            (Ok(p), Ok(q)) => {
                &&& p.name@ == filter_name_of(input.name@)
                &&& p.fields@.map_values(|f: FieldPlan| f@) == q
                &&& p.markers@ == plan_markers(input.params@)
                &&& p.bounded@ == bounded_params(input.params@, input.fields@)
            },
            (Err(e), Err(f)) => e == f,
            _ => false,
        },
{
    match input.shape {
        Shape::NamedStruct => {},
        _ => {
            return Err(GenError::NotNamedStruct);
        },
    }
    let fields = plan_field_list(&input.fields)?;
    let name = input.name.clone().concat("Filter");
    let markers = plan_marker_list(&input.params);
    let bounded = bounded_param_list(&input.params, &input.fields);
    Ok(FilterPlan { name, fields, markers, bounded })
}

/// A field without an annotation gets no member and no methods: adding it to
/// the record leaves the plan of the fields as it was.
pub proof fn lemma_unannotated_field_ignored(fields: Seq<FieldSchema>, field: FieldSchema)
    requires
        field.annotation is None,
    ensures
        plan_fields(fields.push(field)) == plan_fields(fields),
{
    assert(fields.push(field).drop_last() =~= fields);
}

} // verus!
