//! Building a decompiled contract's ABI: each recovered function yields a
//! function entry plus one entry per custom error and event it raised,
//! with argument tokens named by position and unresolved items named
//! after their selectors.

use vstd::prelude::*;
use vstd::string::StrSliceExecFns;
use vstd::string::StringExecFns;
use crate::disasm::{spec_dec_digits, usize_to_string};

verus! {

/// One named, typed slot of a function signature.
pub struct ABIToken {
    /// Positional name, `arg0`, `arg1`, ...
    pub name: String,
    /// The slot's type as the contract declares it.
    pub internal_type: String,
    /// The slot's canonical type.
    pub type_: String,
}

/// Abstract value of an `ABIToken`.
pub struct ABITokenV {
    /// Positional name.
    pub name: Seq<char>,
    /// Declared type.
    pub internal_type: Seq<char>,
    /// Canonical type.
    pub type_: Seq<char>,
}

impl DeepView for ABIToken {
    type V = ABITokenV;

    open spec fn deep_view(&self) -> ABITokenV {
        ABITokenV {
            name: self.name@,
            internal_type: self.internal_type@,
            type_: self.type_@,
        }
    }
}

/// ABI entry of one function.
pub struct FunctionABI {
    /// Always `function`.
    pub type_: String,
    /// The function's name.
    pub name: String,
    /// Its parameters.
    pub inputs: Vec<ABIToken>,
    /// Its return slots.
    pub outputs: Vec<ABIToken>,
    /// One of `payable`, `pure`, `view`, `nonpayable`.
    pub state_mutability: String,
    /// Whether the function is a parameterless pure function.
    pub constant: bool,
}

/// Abstract value of a `FunctionABI`.
pub struct FunctionABIV {
    /// Always `function`.
    pub type_: Seq<char>,
    /// The function's name.
    pub name: Seq<char>,
    /// Its parameters.
    pub inputs: Seq<ABITokenV>,
    /// Its return slots.
    pub outputs: Seq<ABITokenV>,
    /// Mutability keyword.
    pub state_mutability: Seq<char>,
    /// Parameterless pure function.
    pub constant: bool,
}

impl DeepView for FunctionABI {
    type V = FunctionABIV;

    open spec fn deep_view(&self) -> FunctionABIV {
        FunctionABIV {
            type_: self.type_@,
            name: self.name@,
            inputs: self.inputs.deep_view(),
            outputs: self.outputs.deep_view(),
            state_mutability: self.state_mutability@,
            constant: self.constant,
        }
    }
}

/// ABI entry of one custom error; events recovered by the decompiler are
/// written in this shape as well, with `event` in `type_`.
pub struct ErrorABI {
    /// `error` or `event`.
    pub type_: String,
    /// The item's name.
    pub name: String,
    /// Its parameters.
    pub inputs: Vec<ABIToken>,
}

/// Abstract value of an `ErrorABI`.
pub struct ErrorABIV {
    /// `error` or `event`.
    pub type_: Seq<char>,
    /// The item's name.
    pub name: Seq<char>,
    /// Its parameters.
    pub inputs: Seq<ABITokenV>,
}

impl DeepView for ErrorABI {
    type V = ErrorABIV;

    open spec fn deep_view(&self) -> ErrorABIV {
        ErrorABIV { type_: self.type_@, name: self.name@, inputs: self.inputs.deep_view() }
    }
}

/// ABI entry of one event.
pub struct EventABI {
    /// Always `event`.
    pub type_: String,
    /// The event's name.
    pub name: String,
    /// Its parameters.
    pub inputs: Vec<ABIToken>,
}

/// Abstract value of an `EventABI`.
pub struct EventABIV {
    /// Always `event`.
    pub type_: Seq<char>,
    /// The event's name.
    pub name: Seq<char>,
    /// Its parameters.
    pub inputs: Seq<ABITokenV>,
}

impl DeepView for EventABI {
    type V = EventABIV;

    open spec fn deep_view(&self) -> EventABIV {
        EventABIV { type_: self.type_@, name: self.name@, inputs: self.inputs.deep_view() }
    }
}

/// One entry of the ABI being built.
pub enum ABIStructure {
    /// A function entry.
    Function(FunctionABI),
    /// An error entry (also used for events, with `event` in `type_`).
    Error(ErrorABI),
    /// An event entry.
    Event(EventABI),
}

/// Abstract value of an `ABIStructure`.
pub enum ABIStructureV {
    /// A function entry.
    Function(FunctionABIV),
    /// An error entry.
    Error(ErrorABIV),
    /// An event entry.
    Event(EventABIV),
}

impl DeepView for ABIStructure {
    type V = ABIStructureV;

    open spec fn deep_view(&self) -> ABIStructureV {
        match self {
            ABIStructure::Function(f) => ABIStructureV::Function(f.deep_view()),
            ABIStructure::Error(e) => ABIStructureV::Error(e.deep_view()),
            ABIStructure::Event(e) => ABIStructureV::Event(e.deep_view()),
        }
    }
}

/// A name with its parameter types, as signature resolution recovered it
/// for a function, error, or event.
pub struct ResolvedSignature {
    /// The recovered name.
    pub name: String,
    /// The recovered parameter types, in order.
    pub inputs: Vec<String>,
}

/// Abstract value of a `ResolvedSignature`.
pub struct ResolvedSignatureV {
    /// The recovered name.
    pub name: Seq<char>,
    /// The recovered parameter types.
    pub inputs: Seq<Seq<char>>,
}

impl DeepView for ResolvedSignature {
    type V = ResolvedSignatureV;

    open spec fn deep_view(&self) -> ResolvedSignatureV {
        ResolvedSignatureV { name: self.name@, inputs: self.inputs.deep_view() }
    }
}

/// What the decompiler knows of one recovered function, laid out as the
/// plain values the ABI builder reads.
pub struct Function {
    /// The function's 4-byte selector, hex-encoded.
    pub selector: String,
    /// The resolved signature, when a database lookup matched.
    pub resolved_function: Option<ResolvedSignature>,
    /// The recovered return type, if any.
    pub return_type: Option<String>,
    /// The most likely type of each argument, in order, for unresolved
    /// functions.
    pub argument_types: Vec<String>,
    /// Whether the function accepts value.
    pub payable: bool,
    /// Whether it reads and writes no state.
    pub pure: bool,
    /// Whether it reads but does not write state.
    pub view: bool,
    /// Custom errors raised in its body: selector and resolution.
    pub errors: Vec<(String, Option<ResolvedSignature>)>,
    /// Events emitted in its body: selector and resolution.
    pub events: Vec<(String, Option<ResolvedSignature>)>,
}

/// Abstract value of a `Function`.
pub struct FunctionV {
    /// Hex selector.
    pub selector: Seq<char>,
    /// Resolved signature, if any.
    pub resolved_function: Option<ResolvedSignatureV>,
    /// Recovered return type.
    pub return_type: Option<Seq<char>>,
    /// Likely argument types.
    pub argument_types: Seq<Seq<char>>,
    /// Accepts value.
    pub payable: bool,
    /// Touches no state.
    pub pure: bool,
    /// Reads state only.
    pub view: bool,
    /// Errors raised.
    pub errors: Seq<(Seq<char>, Option<ResolvedSignatureV>)>,
    /// Events emitted.
    pub events: Seq<(Seq<char>, Option<ResolvedSignatureV>)>,
}

impl DeepView for Function {
    type V = FunctionV;

    open spec fn deep_view(&self) -> FunctionV {
        FunctionV {
            selector: self.selector@,
            resolved_function: self.resolved_function.deep_view(),
            return_type: self.return_type.deep_view(),
            argument_types: self.argument_types.deep_view(),
            payable: self.payable,
            pure: self.pure,
            view: self.view,
            errors: self.errors.deep_view(),
            events: self.events.deep_view(),
        }
    }
}

/// Tokens `arg0`, `arg1`, ... typed by the given list, one per entry.
pub open spec fn spec_arg_tokens(types: Seq<Seq<char>>) -> Seq<ABITokenV>
    decreases types.len(),
{
    if types.len() == 0 {
        Seq::empty()
    } else {
        spec_arg_tokens(types.drop_last()).push(
            (ABITokenV {
                name: "arg"@ + spec_dec_digits((types.len() - 1) as nat),
                internal_type: types.last(),
                type_: types.last(),
            }),
        )
    }
}

/// Tokens of a resolved error or event: empty-typed slots are skipped,
/// but every slot keeps its positional index in the names.
pub open spec fn spec_named_tokens(types: Seq<Seq<char>>) -> Seq<ABITokenV>
    decreases types.len(),
{
    if types.len() == 0 {
        Seq::empty()
    } else {
        let init = spec_named_tokens(types.drop_last());
        if types.last().len() == 0 {
            init
        } else {
            init.push(
                (ABITokenV {
                    name: "arg"@ + spec_dec_digits((types.len() - 1) as nat),
                    internal_type: types.last(),
                    type_: types.last(),
                }),
            )
        }
    }
}

/// The single `ret0` output token, when a return type was recovered.
pub open spec fn spec_output_tokens(return_type: Option<Seq<char>>) -> Seq<ABITokenV> {
    match return_type {
        Some(r) => seq![ABITokenV { name: "ret0"@, internal_type: r, type_: r }],
        None => Seq::empty(),
    }
}

/// The mutability keyword of a function, most permissive first.
pub open spec fn spec_state_mutability(is_payable: bool, is_pure: bool, is_view: bool) -> Seq<
    char,
> {
    if is_payable {
        "payable"@
    } else if is_pure {
        "pure"@
    } else if is_view {
        "view"@
    } else {
        "nonpayable"@
    }
}

/// The function entry: resolved functions keep their name and typed
/// inputs; unresolved ones are named after their selector and typed by
/// the decompiler's guesses.
pub open spec fn spec_function_entry(f: FunctionV) -> ABIStructureV {
    let name = match f.resolved_function {
        Some(rf) => rf.name,
        None => "Unresolved_"@ + f.selector,
    };
    let inputs = match f.resolved_function {
        Some(rf) => spec_arg_tokens(rf.inputs),
        None => spec_arg_tokens(f.argument_types),
    };
    let mutability = spec_state_mutability(f.payable, f.pure, f.view);
    ABIStructureV::Function(
        (FunctionABIV {
            type_: "function"@,
            name: name,
            inputs: inputs,
            outputs: spec_output_tokens(f.return_type),
            state_mutability: mutability,
            constant: !f.payable && f.pure && inputs.len() == 0,
        }),
    )
}

/// The entry of one custom error; an unresolved one is named after its
/// selector.
pub open spec fn spec_error_entry(selector: Seq<char>, resolved: Option<ResolvedSignatureV>) -> ABIStructureV {
    match resolved {
        Some(re) => ABIStructureV::Error(
            (ErrorABIV { type_: "error"@, name: re.name, inputs: spec_named_tokens(re.inputs) }),
        ),
        None => ABIStructureV::Error(
            (ErrorABIV { type_: "error"@, name: "CustomError_"@ + selector, inputs: Seq::empty() }),
        ),
    }
}

/// The entry of one event, written in the error shape with `event` as its
/// kind; an unresolved one is named after the first eight characters of
/// its selector.
pub open spec fn spec_event_entry(selector: Seq<char>, resolved: Option<ResolvedSignatureV>) -> ABIStructureV {
    match resolved {
        Some(re) => ABIStructureV::Error(
            (ErrorABIV { type_: "event"@, name: re.name, inputs: spec_named_tokens(re.inputs) }),
        ),
        None => ABIStructureV::Error(
            (ErrorABIV {
                type_: "event"@,
                name: "Event_"@ + selector.take(8),
                inputs: Seq::empty(),
            }),
        ),
    }
}

/// Entries of a function's errors, in order.
pub open spec fn spec_error_entries(es: Seq<(Seq<char>, Option<ResolvedSignatureV>)>) -> Seq<
    ABIStructureV,
>
    decreases es.len(),
{
    if es.len() == 0 {
        Seq::empty()
    } else {
        spec_error_entries(es.drop_last()).push(
            spec_error_entry(es.last().0, es.last().1),
        )
    }
}

/// Entries of a function's events, in order.
pub open spec fn spec_event_entries(es: Seq<(Seq<char>, Option<ResolvedSignatureV>)>) -> Seq<
    ABIStructureV,
>
    decreases es.len(),
{
    if es.len() == 0 {
        Seq::empty()
    } else {
        spec_event_entries(es.drop_last()).push(
            spec_event_entry(es.last().0, es.last().1),
        )
    }
}

/// Everything one function contributes to the ABI: its own entry, then
/// its errors, then its events.
pub open spec fn spec_entries_of(f: FunctionV) -> Seq<ABIStructureV> {
    seq![spec_function_entry(f)] + spec_error_entries(f.errors) + spec_event_entries(f.events)
}

/// The whole ABI, function by function.
pub open spec fn spec_build_output(fs: Seq<FunctionV>) -> Seq<ABIStructureV>
    decreases fs.len(),
{
    if fs.len() == 0 {
        Seq::empty()
    } else {
        spec_build_output(fs.drop_last()) + spec_entries_of(fs.last())
    }
}

/// Builds the positional tokens of a parameter list.
fn arg_tokens(types: &Vec<String>) -> (r: Vec<ABIToken>)
    ensures
        r.deep_view() == spec_arg_tokens(types.deep_view()),
{
    let mut r: Vec<ABIToken> = Vec::new();
    let mut i: usize = 0;
    proof {
        assert(types.deep_view().take(0) =~= Seq::<Seq<char>>::empty());
        assert(r.deep_view() =~= spec_arg_tokens(types.deep_view().take(0)));
    }
    while i < types.len()
        invariant
            i <= types@.len(),
            types.deep_view().len() == types@.len(),
            r.deep_view() == spec_arg_tokens(types.deep_view().take(i as int)),
        decreases types@.len() - i,
    {
        let mut name = String::from_str("arg");
        let num = usize_to_string(i);
        name.append(num.as_str());
        let token = ABIToken {
            name,
            internal_type: types[i].clone(),
            type_: types[i].clone(),
        };
        let ghost prev = r.deep_view();
        r.push(token);
        proof {
            let dv = types.deep_view();
            assert(dv.take(i + 1).drop_last() =~= dv.take(i as int));
            assert(dv.take(i + 1).last() == dv[i as int]);
            assert(dv[i as int] == types@[i as int]@);
            assert(r.deep_view() =~= prev.push(token.deep_view()));
        }
        i += 1;
    }
    proof {
        assert(types.deep_view().take(types@.len() as int) =~= types.deep_view());
    }
    r
}

/// Builds the tokens of a resolved error or event, skipping empty-typed
/// slots.
fn named_tokens(types: &Vec<String>) -> (r: Vec<ABIToken>)
    ensures
        r.deep_view() == spec_named_tokens(types.deep_view()),
{
    let mut r: Vec<ABIToken> = Vec::new();
    let mut i: usize = 0;
    proof {
        assert(types.deep_view().take(0) =~= Seq::<Seq<char>>::empty());
        assert(r.deep_view() =~= spec_named_tokens(types.deep_view().take(0)));
    }
    while i < types.len()
        invariant
            i <= types@.len(),
            types.deep_view().len() == types@.len(),
            r.deep_view() == spec_named_tokens(types.deep_view().take(i as int)),
        decreases types@.len() - i,
    {
        proof {
            let dv = types.deep_view();
            assert(dv.take(i + 1).drop_last() =~= dv.take(i as int));
            assert(dv.take(i + 1).last() == dv[i as int]);
            assert(dv[i as int] == types@[i as int]@);
        }
        if !types[i].as_str().is_empty() {
            let mut name = String::from_str("arg");
            let num = usize_to_string(i);
            name.append(num.as_str());
            let token = ABIToken {
                name,
                internal_type: types[i].clone(),
                type_: types[i].clone(),
            };
            let ghost prev = r.deep_view();
            r.push(token);
            proof {
                assert(r.deep_view() =~= prev.push(token.deep_view()));
            }
        }
        i += 1;
    }
    proof {
        assert(types.deep_view().take(types@.len() as int) =~= types.deep_view());
    }
    r
}

/// Builds the output tokens of a recovered return type.
fn output_tokens(return_type: &Option<String>) -> (r: Vec<ABIToken>)
    ensures
        r.deep_view() == spec_output_tokens(return_type.deep_view()),
{
    let mut r: Vec<ABIToken> = Vec::new();
    match return_type {
        Some(ret) => {
            let token = ABIToken {
                name: String::from_str("ret0"),
                internal_type: ret.clone(),
                type_: ret.clone(),
            };
            let ghost tv = token.deep_view();
            r.push(token);
            proof {
                assert(r.deep_view() =~= seq![tv]);
            }
        },
        None => {
            proof {
                assert(r.deep_view() =~= Seq::<ABITokenV>::empty());
            }
        },
    }
    r
}

/// Builds the whole ABI of the recovered functions: one function entry
/// each, followed by entries for the errors and events raised in its
/// body. An unresolved event needs at least eight selector characters to
/// be named.
pub fn build_output(functions: Vec<Function>) -> (abi: Vec<ABIStructure>)
    requires
        forall|i: int, j: int|
            0 <= i < functions@.len() && 0 <= j < functions@[i].events@.len()
                && functions@[i].events@[j].1 is None ==> functions@[i].events@[j].0@.len() >= 8,
    ensures
        abi.deep_view() == spec_build_output(functions.deep_view()),
{
    let mut abi: Vec<ABIStructure> = Vec::new();
    let mut i: usize = 0;
    proof {
        assert(functions.deep_view().take(0) =~= Seq::<FunctionV>::empty());
        assert(abi.deep_view() =~= spec_build_output(functions.deep_view().take(0)));
    }
    while i < functions.len()
        invariant
            i <= functions@.len(),
            functions.deep_view().len() == functions@.len(),
            abi.deep_view() == spec_build_output(functions.deep_view().take(i as int)),
            forall|k: int, j: int|
                0 <= k < functions@.len() && 0 <= j < functions@[k].events@.len()
                    && functions@[k].events@[j].1 is None ==> functions@[k].events@[j].0@.len()
                    >= 8,
        decreases functions@.len() - i,
    {
        let function = &functions[i];
        let ghost fv = functions.deep_view()[i as int];
        proof {
            assert(fv == functions@[i as int].deep_view());
        }
        let ghost before = abi.deep_view();

        // the function's own entry
        let name: String = match &function.resolved_function {
            Some(rf) => rf.name.clone(),
            None => {
                let mut n = String::from_str("Unresolved_");
                n.append(function.selector.as_str());
                n
            },
        };
        let inputs: Vec<ABIToken> = match &function.resolved_function {
            Some(rf) => arg_tokens(&rf.inputs),
            None => arg_tokens(&function.argument_types),
        };
        let outputs = output_tokens(&function.return_type);
        let state_mutability: String = if function.payable {
            String::from_str("payable")
        } else if function.pure {
            String::from_str("pure")
        } else if function.view {
            String::from_str("view")
        } else {
            String::from_str("nonpayable")
        };
        let constant = !function.payable && function.pure && inputs.len() == 0;
        let entry = ABIStructure::Function(
            FunctionABI {
                type_: String::from_str("function"),
                name,
                inputs,
                outputs,
                state_mutability,
                constant,
            },
        );
        let ghost ev = entry.deep_view();
        abi.push(entry);
        proof {
            assert(ev == spec_function_entry(fv));
            assert(abi.deep_view() =~= before + seq![spec_function_entry(fv)]);
        }

        // the function's custom errors
        let mut j: usize = 0;
        proof {
            assert(fv.errors.take(0) =~= Seq::<(Seq<char>, Option<ResolvedSignatureV>)>::empty());
            assert(abi.deep_view() =~= before + seq![spec_function_entry(fv)]
                + spec_error_entries(fv.errors.take(0)));
        }
        while j < function.errors.len()
            invariant
                j <= function.errors@.len(),
                fv == functions.deep_view()[i as int],
                0 <= i < functions@.len(),
                function == &functions@[i as int],
                fv == functions@[i as int].deep_view(),
                abi.deep_view() == before + seq![spec_function_entry(fv)] + spec_error_entries(
                    fv.errors.take(j as int),
                ),
            decreases function.errors@.len() - j,
        {
            proof {
                assert(fv.errors.take(j + 1).drop_last() =~= fv.errors.take(j as int));
                assert(fv.errors.take(j + 1).last() == fv.errors[j as int]);
                assert(fv.errors[j as int] == function.errors@[j as int].deep_view());
            }
            let err_entry: ABIStructure = match &function.errors[j].1 {
                Some(re) => ABIStructure::Error(
                    ErrorABI {
                        type_: String::from_str("error"),
                        name: re.name.clone(),
                        inputs: named_tokens(&re.inputs),
                    },
                ),
                None => {
                    let mut n = String::from_str("CustomError_");
                    n.append(function.errors[j].0.as_str());
                    let empty_inputs: Vec<ABIToken> = Vec::new();
                    proof {
                        assert(empty_inputs.deep_view() =~= Seq::<ABITokenV>::empty());
                    }
                    ABIStructure::Error(
                        ErrorABI {
                            type_: String::from_str("error"),
                            name: n,
                            inputs: empty_inputs,
                        },
                    )
                },
            };
            let ghost eev = err_entry.deep_view();
            abi.push(err_entry);
            proof {
                assert(eev == spec_error_entry(fv.errors[j as int].0, fv.errors[j as int].1));
                let prev_dv = before + seq![spec_function_entry(fv)] + spec_error_entries(
                    fv.errors.take(j as int),
                );
                assert(spec_error_entries(fv.errors.take(j + 1)) == spec_error_entries(
                    fv.errors.take(j as int),
                ).push(eev));
                assert(abi.deep_view() =~= prev_dv.push(eev));
                assert(prev_dv.push(eev) =~= before + seq![spec_function_entry(fv)]
                    + spec_error_entries(fv.errors.take(j + 1)));
            }
            j += 1;
        }
        proof {
            assert(fv.errors.take(function.errors@.len() as int) =~= fv.errors);
        }

        // the function's events, written in the error shape
        let mut k: usize = 0;
        proof {
            assert(fv.events.take(0) =~= Seq::<(Seq<char>, Option<ResolvedSignatureV>)>::empty());
        }
        while k < function.events.len()
            invariant
                k <= function.events@.len(),
                fv == functions.deep_view()[i as int],
                0 <= i < functions@.len(),
                function == &functions@[i as int],
                fv == functions@[i as int].deep_view(),
                forall|j2: int|
                    0 <= j2 < functions@[i as int].events@.len()
                        && functions@[i as int].events@[j2].1 is None
                        ==> functions@[i as int].events@[j2].0@.len() >= 8,
                abi.deep_view() == before + seq![spec_function_entry(fv)] + spec_error_entries(
                    fv.errors,
                ) + spec_event_entries(fv.events.take(k as int)),
            decreases function.events@.len() - k,
        {
            proof {
                assert(fv.events.take(k + 1).drop_last() =~= fv.events.take(k as int));
                assert(fv.events.take(k + 1).last() == fv.events[k as int]);
                assert(fv.events[k as int] == function.events@[k as int].deep_view());
            }
            let event_entry: ABIStructure = match &function.events[k].1 {
                Some(re) => ABIStructure::Error(
                    ErrorABI {
                        type_: String::from_str("event"),
                        name: re.name.clone(),
                        inputs: named_tokens(&re.inputs),
                    },
                ),
                None => {
                    let mut n = String::from_str("Event_");
                    let head = function.events[k].0.as_str().substring_char(0, 8);
                    n.append(head);
                    let empty_inputs: Vec<ABIToken> = Vec::new();
                    proof {
                        assert(empty_inputs.deep_view() =~= Seq::<ABITokenV>::empty());
                    }
                    ABIStructure::Error(
                        ErrorABI {
                            type_: String::from_str("event"),
                            name: n,
                            inputs: empty_inputs,
                        },
                    )
                },
            };
            let ghost eev = event_entry.deep_view();
            abi.push(event_entry);
            proof {
                assert(eev == spec_event_entry(fv.events[k as int].0, fv.events[k as int].1)) by {
                    if function.events@[k as int].1 is None {
                        let sel = function.events@[k as int].0@;
                        assert(sel.take(8) =~= sel.subrange(0, 8));
                    }
                }
                let prev_dv = before + seq![spec_function_entry(fv)] + spec_error_entries(
                    fv.errors,
                ) + spec_event_entries(fv.events.take(k as int));
                assert(spec_event_entries(fv.events.take(k + 1)) == spec_event_entries(
                    fv.events.take(k as int),
                ).push(eev));
                assert(abi.deep_view() =~= prev_dv.push(eev));
                assert(prev_dv.push(eev) =~= before + seq![spec_function_entry(fv)]
                    + spec_error_entries(fv.errors) + spec_event_entries(fv.events.take(k + 1)));
            }
            k += 1;
        }
        proof {
            assert(fv.events.take(function.events@.len() as int) =~= fv.events);
            assert(functions.deep_view().take(i + 1).drop_last() =~= functions.deep_view().take(
                i as int,
            ));
            assert(functions.deep_view().take(i + 1).last() == fv);
            assert(abi.deep_view() =~= spec_build_output(functions.deep_view().take(i as int))
                + spec_entries_of(fv));
        }
        i += 1;
    }
    proof {
        assert(functions.deep_view().take(functions@.len() as int) =~= functions.deep_view());
    }
    abi
}

} // verus!
