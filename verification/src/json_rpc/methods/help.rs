//! The `help` method: lists the commands, or describes one.

use super::openrpc::{
    description_of, ContentDescriptor, ContentDescriptorView, Generator, MethodTable, ParamSchema,
};
use crate::json_rpc::server::RpcError;
use vstd::prelude::*;
use vstd::string::*;

verus! {

/// Response to a `help` RPC request.
pub type Response = Result<ResultType, RpcError>;

/// The help response.
#[derive(Clone, Debug)]
pub struct ResultType(pub String);

/// The first `n` names, each followed by a line feed.
pub open spec fn listing(methods: Seq<(Seq<char>, Seq<char>)>, n: nat) -> Seq<char>
    decreases n,
{
    if n == 0 {
        Seq::empty()
    } else {
        listing(methods, (n - 1) as nat) + methods[n - 1].0 + "\n"@
    }
}

/// The text that answers a request for help.
///
/// Without a command it lists the names of all methods in their order. With the name of
/// a method it gives the name, an empty line and the method's description, and with
/// another name it says that the command is unknown.
pub open spec fn help_text(methods: Seq<(Seq<char>, Seq<char>)>, command: Option<Seq<char>>) -> Seq<
    char,
> {
    match command {
        Some(name) => match description_of(methods, name) {
            Some(description) => name + "\n\n"@ + description,
            None => "help: unknown command: "@ + name + "\n"@,
        },
        None => listing(methods, methods.len()),
    }
}

/// What [`params`] describes.
pub open spec fn spec_params() -> Seq<ContentDescriptorView> {
    seq![
        ContentDescriptorView {
            name: "command"@,
            description: "The command to get help on."@,
            required: false,
            schema: ParamSchema::String,
        },
    ]
}

/// Defines the method parameters for OpenRPC.
pub fn params(g: &mut Generator) -> (r: Vec<ContentDescriptor>)
    ensures
        r@.map_values(|d: ContentDescriptor| d@) == spec_params(),
        final(g)@ == old(g)@ + seq![ParamSchema::String],
{
    let command = g.param(ParamSchema::String, "command", "The command to get help on.", false);
    let mut r: Vec<ContentDescriptor> = Vec::new();
    r.push(command);
    assert(r@.map_values(|d: ContentDescriptor| d@) =~= spec_params());
    assert(final(g)@ =~= old(g)@ + seq![ParamSchema::String]);
    r
}

/// Answers the request from the table of the interface's methods.
pub fn call(methods: &MethodTable, command: Option<&str>) -> (r: Response)
    ensures
        r matches Ok(text) && text.0@ == help_text(
            methods@,
            match command {
                Some(name) => Some(name@),
                None => None,
            },
        ),
{
    let text = match command {
        Some(name) => match methods.get(name) {
            None => {
                let mut ret = String::from_str("help: unknown command: ");
                ret.append(name);
                ret.append("\n");
                ret
            },
            Some(method) => {
                let mut ret = String::from_str(name);
                ret.append("\n\n");
                ret.append(method.description);
                ret
            },
        },
        None => {
            let mut ret = String::new();
            let n = methods.len();
            let mut i: usize = 0;
            while i < n
                invariant
                    i <= n,
                    n == methods@.len(),
                    ret@ == listing(methods@, i as nat),
                decreases n - i,
            {
                match methods.name_at(i) {
                    Some(name) => {
                        ret.append(name);
                        ret.append("\n");
                    },
                    None => {},
                }
                i += 1;
            }
            ret
        },
    };
    Ok(ResultType(text))
}

} // verus!
