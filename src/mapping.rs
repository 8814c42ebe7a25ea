//! Turning a tool's declared parameter mappings and a call's arguments into
//! the ordered list of command-line tokens.

use vstd::prelude::*;

verus! {

/// One template entry of a tool's command line.
///
/// With `mcp_param` set, the entry emits the caller's value for that argument
/// (preceded by `command_param` when that is set too), or nothing when the
/// call does not carry the argument. With only `command_param` set, the entry
/// is a static switch that is always emitted. Both unset is not a valid entry.
pub struct CommandParameterMapping {
    /// Name of the call argument whose value is injected.
    pub mcp_param: Option<String>,
    /// Literal token: a static switch, or the switch that precedes the value.
    pub command_param: Option<String>,
}

/// What a mapping entry is, as plain sequences.
pub struct MappingModel {
    pub source: Option<Seq<char>>,
    pub literal: Option<Seq<char>>,
}

pub open spec fn opt_view(o: Option<String>) -> Option<Seq<char>> {
    match o {
        Some(s) => Some(s@),
        None => None,
    }
}

impl View for CommandParameterMapping {
    type V = MappingModel;

    open spec fn view(&self) -> MappingModel {
        MappingModel { source: opt_view(self.mcp_param), literal: opt_view(self.command_param) }
    }
}

impl CommandParameterMapping {
    /// An entry that is usable: at least one of its two parts is set.
    pub open spec fn valid(&self) -> bool {
        self.mcp_param is Some || self.command_param is Some
    }

    pub fn is_valid(&self) -> (r: bool)
        ensures
            r == self.valid(),
    {
        self.mcp_param.is_some() || self.command_param.is_some()
    }
}

/// The value of a call argument.
///
/// Only text is injected as it stands; any other JSON value is injected as its
/// JSON text.
pub enum ArgValue {
    Text(String),
    Json(String),
}

/// One named argument of a tool call.
pub struct CallArgument {
    pub name: String,
    pub value: ArgValue,
}

impl ArgValue {
    /// The token that this value contributes to a command line.
    pub open spec fn token(&self) -> Seq<char> {
        match self {
            ArgValue::Text(s) => s@,
            ArgValue::Json(s) => s@,
        }
    }

    pub fn token_text(&self) -> (r: &String)
        ensures
            r@ == self.token(),
    {
        match self {
            ArgValue::Text(s) => s,
            ArgValue::Json(s) => s,
        }
    }
}

/// The token of the first argument named `name`, if the call carries one.
pub open spec fn arg_value(args: Seq<CallArgument>, name: Seq<char>) -> Option<Seq<char>>
    decreases args.len(),
{
    if args.len() == 0 {
        None
    } else {
        match arg_value(args.drop_last(), name) {
            Some(v) => Some(v),
            None => if args.last().name@ == name {
                Some(args.last().value.token())
            } else {
                None
            },
        }
    }
}

/// The tokens that one mapping entry contributes.
pub open spec fn mapping_tokens(m: MappingModel, args: Seq<CallArgument>) -> Seq<Seq<char>> {
    match m.source {
        Some(p) => match arg_value(args, p) {
            Some(v) => match m.literal {
                Some(l) => seq![l, v],
                None => seq![v],
            },
            None => seq![],
        },
        None => match m.literal {
            Some(l) => seq![l],
            None => seq![],
        },
    }
}

/// The command line of a list of mapping entries: each entry's tokens, in the
/// declared order.
pub open spec fn argv_of(ms: Seq<MappingModel>, args: Seq<CallArgument>) -> Seq<Seq<char>>
    decreases ms.len(),
{
    if ms.len() == 0 {
        seq![]
    } else {
        argv_of(ms.drop_last(), args) + mapping_tokens(ms.last(), args)
    }
}

pub open spec fn mappings_view(v: Seq<CommandParameterMapping>) -> Seq<MappingModel> {
    v.map_values(|m: CommandParameterMapping| m@)
}

pub open spec fn strings_view(v: Seq<String>) -> Seq<Seq<char>> {
    v.map_values(|s: String| s@)
}

/// Finds the token of the first argument named `name`.
pub fn find_argument<'a>(args: &'a Vec<CallArgument>, name: &String) -> (r: Option<&'a String>)
    ensures
        match r {
            Some(v) => arg_value(args@, name@) == Some(v@),
            None => arg_value(args@, name@) is None,
        },
{
    let n = args.len();
    let mut i: usize = 0;
    while i < n
        invariant
            n == args@.len(),
            i <= n,
            arg_value(args@.take(i as int), name@) is None,
        decreases n - i,
    {
        proof {
            assert(args@.take(i as int + 1).drop_last() =~= args@.take(i as int));
        }
        if args[i].name == *name {
            let v = args[i].value.token_text();
            proof {
                lemma_arg_value_prefix(args@, i as int + 1, name@);
            }
            return Some(v);
        }
        i += 1;
    }
    proof {
        assert(args@.take(n as int) =~= args@);
    }
    None
}

/// Once the first `k` arguments hold a match, the whole list gives the same one.
proof fn lemma_arg_value_prefix(args: Seq<CallArgument>, k: int, name: Seq<char>)
    requires
        0 <= k <= args.len(),
        arg_value(args.take(k), name) is Some,
    ensures
        arg_value(args, name) == arg_value(args.take(k), name),
    decreases args.len() - k,
{
    if k < args.len() {
        assert(args.take(k + 1).drop_last() =~= args.take(k));
        lemma_arg_value_prefix(args, k + 1, name);
    } else {
        assert(args.take(k) =~= args);
    }
}

/// Builds the command line of a tool call: walks the mapping entries in their
/// declared order, emitting static switches always and bound entries only when
/// the call carries their argument.
pub fn build_args(mappings: &Vec<CommandParameterMapping>, arguments: &Vec<CallArgument>) -> (r: Vec<String>)
    ensures
        strings_view(r@) == argv_of(mappings_view(mappings@), arguments@),
{
    let mut out: Vec<String> = Vec::new();
    let n = mappings.len();
    let mut i: usize = 0;
    while i < n
        invariant
            n == mappings@.len(),
            i <= n,
            strings_view(out@) == argv_of(mappings_view(mappings@.take(i as int)), arguments@),
        decreases n - i,
    {
        let m = &mappings[i];
        let ghost before = out@;
        match &m.mcp_param {
            Some(p) => match find_argument(arguments, p) {
                Some(v) => {
                    match &m.command_param {
                        Some(l) => out.push(l.clone()),
                        None => {},
                    }
                    out.push(v.clone());
                },
                None => {},
            },
            None => match &m.command_param {
                Some(l) => out.push(l.clone()),
                None => {},
            },
        }
        proof {
            let ms = mappings_view(mappings@.take(i as int + 1));
            assert(ms.drop_last() =~= mappings_view(mappings@.take(i as int)));
            assert(ms.last() == m@);
            assert(strings_view(out@) =~= strings_view(before) + mapping_tokens(m@, arguments@));
        }
        i += 1;
    }
    proof {
        assert(mappings@.take(n as int) =~= mappings@);
    }
    out
}

} // verus!
