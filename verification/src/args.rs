//! The command line: which arguments are input items and which one is the
//! output path.

use crate::error::{ConfigError, ErrorView};
use vstd::prelude::*;
use vstd::string::*;

verus! {

/// What the arguments read so far have given.
pub struct Scan {
    /// The input items, in the order of the arguments.
    pub inputs: Seq<Seq<char>>,
    /// The output path; empty while none is set.
    pub output: Seq<char>,
    /// Whether an output switch has been read.
    pub armed: bool,
}

/// Why a command line is refused.
pub enum Refusal {
    /// An argument follows the output path.
    TooManyOutputs,
    /// An argument starts with a dash and is no output switch.
    UnknownSwitch(Seq<char>),
}

/// What a command line gives: input items and, if one is set, the output
/// path.
pub struct InvocationView {
    pub input_list: Seq<Seq<char>>,
    pub output_file_path: Option<Seq<char>>,
}

/// What a command line gives: input items and, if one is set, the output
/// path.
#[derive(Debug, Clone, PartialEq, Eq)]
pub struct Invocation {
    pub input_list: Vec<String>,
    pub output_file_path: Option<String>,
}

impl View for Invocation {
    type V = InvocationView;

    open spec fn view(&self) -> InvocationView {
        InvocationView {
            input_list: self.input_list.deep_view(),
            output_file_path: self.output_file_path.deep_view(),
        }
    }
}

/// Whether `token` is `-o` or `--output`.
pub open spec fn is_output_switch(token: Seq<char>) -> bool {
    token == "-o"@ || token == "--output"@
}

/// Whether `token` starts with a dash.
pub open spec fn has_dash(token: Seq<char>) -> bool {
    token.len() > 0 && token[0] == '-'
}

impl Scan {
    /// Before the first argument.
    pub open spec fn start() -> Scan {
        Scan { inputs: Seq::empty(), output: Seq::empty(), armed: false }
    }

    /// The scan after one more argument. Once an output switch has been
    /// read, the next argument that is not empty is the output path and any
    /// argument after that is refused. Before it, an argument with a leading
    /// dash must be an output switch, and any other argument is an input
    /// item.
    pub open spec fn step(self, token: Seq<char>) -> Result<Scan, Refusal> {
        if self.armed {
            if self.output.len() == 0 {
                Ok(Scan { output: token, ..self })
            } else {
                Err(Refusal::TooManyOutputs)
            }
        } else if has_dash(token) {
            if is_output_switch(token) {
                Ok(Scan { armed: true, ..self })
            } else {
                Err(Refusal::UnknownSwitch(token))
            }
        } else {
            Ok(Scan { inputs: self.inputs.push(token), ..self })
        }
    }

    /// The scan after all of `tokens`, or the first refusal on the way.
    pub open spec fn run(self, tokens: Seq<Seq<char>>) -> Result<Scan, Refusal>
        decreases tokens.len(),
    {
        if tokens.len() == 0 {
            Ok(self)
        } else {
            match self.step(tokens[0]) {
                Ok(next) => next.run(tokens.skip(1)),
                Err(refusal) => Err(refusal),
            }
        }
    }

    /// What the scan gives when the arguments end here.
    pub open spec fn finish(self) -> InvocationView {
        InvocationView {
            input_list: self.inputs,
            output_file_path: if self.output.len() == 0 {
                None
            } else {
                Some(self.output)
            },
        }
    }
}

impl Refusal {
    /// The message for the user.
    pub open spec fn message(self) -> Seq<char> {
        match self {
            Refusal::TooManyOutputs => "too many output path in process arguments"@,
            Refusal::UnknownSwitch(token) => "unknown switch `"@ + token
                + "` in process arguments"@,
        }
    }
}

/// What the arguments `tokens` (the program's name not among them) give.
pub open spec fn split(tokens: Seq<Seq<char>>) -> Result<InvocationView, Refusal> {
    match Scan::start().run(tokens) {
        Ok(scan) => Ok(scan.finish()),
        Err(refusal) => Err(refusal),
    }
}

/// Sorts the arguments of the command line, the program's name not among
/// them, into input items and the output path. A refusal comes back as a
/// `ConfigIllegal` failure with the refusal's message.
pub fn split_args(args: &Vec<String>) -> (r: Result<Invocation, ConfigError>)
    ensures
        match split(args.deep_view()) {
            Ok(invocation) => r matches Ok(got) && got@ == invocation,
            Err(refusal) => r matches Err(e) && e@ == ErrorView::illegal(refusal.message()),
        },
{
    let short = "-o".to_owned();
    let long = "--output".to_owned();
    let mut input_list: Vec<String> = Vec::new();
    let mut output_file_path = String::new();
    let mut is_output_item = false;
    let ghost tokens = args.deep_view();
    let mut i: usize = 0;
    proof {
        assert(input_list.deep_view() =~= Seq::empty());
        assert(tokens.skip(0) =~= tokens);
    }
    while i < args.len()
        invariant
            i <= args.len(),
            tokens == args.deep_view(),
            short@ == "-o"@,
            long@ == "--output"@,
            Scan::start().run(tokens) == (Scan {
                inputs: input_list.deep_view(),
                output: output_file_path@,
                armed: is_output_item,
            }).run(tokens.skip(i as int)),
        decreases args.len() - i,
    {
        let arg = &args[i];
        let ghost before = Scan {
            inputs: input_list.deep_view(),
            output: output_file_path@,
            armed: is_output_item,
        };
        proof {
            assert(tokens.skip(i as int)[0] == arg@);
            assert(tokens.skip(i as int).skip(1) =~= tokens.skip(i + 1));
        }
        if is_output_item {
            if output_file_path.as_str().is_empty() {
                output_file_path = arg.clone();
            } else {
                return Err(
                    ConfigError::illegal("too many output path in process arguments".to_owned()),
                );
            }
        } else if !arg.as_str().is_empty() && arg.as_str().get_char(0) == '-' {
            if *arg == short || *arg == long {
                is_output_item = true;
            } else {
                let mut message = "unknown switch `".to_owned();
                message.append(arg.as_str());
                message.append("` in process arguments");
                return Err(ConfigError::illegal(message));
            }
        } else {
            input_list.push(arg.clone());
            assert(input_list.deep_view() =~= before.inputs.push(arg@));
        }
        i += 1;
    }
    assert(tokens.skip(i as int).len() == 0);
    let output_file_path = if output_file_path.as_str().is_empty() {
        None
    } else {
        Some(output_file_path)
    };
    Ok(Invocation { input_list, output_file_path })
}

/// Whether none of `tokens` starts with a dash.
pub open spec fn all_plain(tokens: Seq<Seq<char>>) -> bool {
    forall|i: int| 0 <= i < tokens.len() ==> !has_dash(#[trigger] tokens[i])
}

/// To scan two runs of arguments one after the other is to scan them as
/// one; a refusal in the first run is the refusal of the whole.
pub proof fn lemma_run_append(scan: Scan, front: Seq<Seq<char>>, back: Seq<Seq<char>>)
    ensures
        scan.run(front + back) == match scan.run(front) {
            Ok(middle) => middle.run(back),
            Err(refusal) => Err(refusal),
        },
    decreases front.len(),
{
    if front.len() == 0 {
        assert(front + back =~= back);
    } else {
        assert((front + back)[0] == front[0]);
        assert((front + back).skip(1) =~= front.skip(1) + back);
        if let Ok(next) = scan.step(front[0]) {
            lemma_run_append(next, front.skip(1), back);
        }
    }
}

/// Before an output switch, arguments without a leading dash are input
/// items, each one, in their order.
pub proof fn lemma_run_plain(scan: Scan, tokens: Seq<Seq<char>>)
    requires
        !scan.armed,
        all_plain(tokens),
    ensures
        scan.run(tokens) == Ok::<Scan, Refusal>(Scan { inputs: scan.inputs + tokens, ..scan }),
    decreases tokens.len(),
{
    if tokens.len() == 0 {
        assert(scan.inputs + tokens =~= scan.inputs);
    } else {
        let next = Scan { inputs: scan.inputs.push(tokens[0]), ..scan };
        assert(all_plain(tokens.skip(1))) by {
            assert forall|i: int| 0 <= i < tokens.skip(1).len() implies !has_dash(
                #[trigger] tokens.skip(1)[i],
            ) by {
                assert(tokens.skip(1)[i] == tokens[i + 1]);
            }
        }
        lemma_run_plain(next, tokens.skip(1));
        assert(next.inputs + tokens.skip(1) =~= scan.inputs + tokens);
    }
}

/// A command line without any leading dash gives all its arguments as
/// input items and no output path.
pub proof fn lemma_split_plain(tokens: Seq<Seq<char>>)
    requires
        all_plain(tokens),
    ensures
        split(tokens) == Ok::<InvocationView, Refusal>(
            InvocationView { input_list: tokens, output_file_path: None },
        ),
{
    lemma_run_plain(Scan::start(), tokens);
    assert(Scan::start().inputs + tokens =~= tokens);
}

/// After input items, an output switch and a path, the scan holds the
/// items and the path and waits for no more.
proof fn lemma_run_output(inputs: Seq<Seq<char>>, switch: Seq<char>, path: Seq<char>)
    requires
        all_plain(inputs),
        is_output_switch(switch),
    ensures
        Scan::start().run(inputs + seq![switch, path]) == Ok::<Scan, Refusal>(
            Scan { inputs, output: path, armed: true },
        ),
{
    reveal_strlit("-o");
    reveal_strlit("--output");
    let tail = seq![switch, path];
    lemma_run_append(Scan::start(), inputs, tail);
    lemma_run_plain(Scan::start(), inputs);
    assert(Scan::start().inputs + inputs =~= inputs);
    let middle = Scan { inputs, ..Scan::start() };
    let armed = Scan { armed: true, ..middle };
    let done = Scan { output: path, ..armed };
    assert(tail.skip(1) =~= seq![path]);
    assert(seq![path].skip(1) =~= Seq::<Seq<char>>::empty());
    assert(done.run(Seq::empty()) == Ok::<Scan, Refusal>(done));
    assert(armed.step(seq![path][0]) == Ok::<Scan, Refusal>(done));
    assert(armed.run(seq![path]) == Ok::<Scan, Refusal>(done));
    assert(middle.step(tail[0]) == Ok::<Scan, Refusal>(armed));
    assert(middle.run(tail) == armed.run(tail.skip(1)));
}

/// Input items, then an output switch, then a path that is not empty: the
/// items are the input and the path is the output.
pub proof fn lemma_split_output(inputs: Seq<Seq<char>>, switch: Seq<char>, path: Seq<char>)
    requires
        all_plain(inputs),
        is_output_switch(switch),
        path.len() > 0,
    ensures
        split(inputs + seq![switch, path]) == Ok::<InvocationView, Refusal>(
            InvocationView { input_list: inputs, output_file_path: Some(path) },
        ),
{
    lemma_run_output(inputs, switch, path);
}

/// Whatever follows the output path is refused.
pub proof fn lemma_split_after_output(
    inputs: Seq<Seq<char>>,
    switch: Seq<char>,
    path: Seq<char>,
    rest: Seq<Seq<char>>,
)
    requires
        all_plain(inputs),
        is_output_switch(switch),
        path.len() > 0,
        rest.len() > 0,
    ensures
        split(inputs + seq![switch, path] + rest) == Err::<InvocationView, Refusal>(
            Refusal::TooManyOutputs,
        ),
{
    lemma_run_output(inputs, switch, path);
    lemma_run_append(Scan::start(), inputs + seq![switch, path], rest);
}

/// The first argument with a leading dash that is no output switch is
/// refused by name, whatever follows it.
pub proof fn lemma_split_unknown_switch(
    inputs: Seq<Seq<char>>,
    token: Seq<char>,
    rest: Seq<Seq<char>>,
)
    requires
        all_plain(inputs),
        has_dash(token),
        !is_output_switch(token),
    ensures
        split(inputs + seq![token] + rest) == Err::<InvocationView, Refusal>(
            Refusal::UnknownSwitch(token),
        ),
{
    let tail = seq![token] + rest;
    assert(inputs + seq![token] + rest =~= inputs + tail);
    lemma_run_append(Scan::start(), inputs, tail);
    lemma_run_plain(Scan::start(), inputs);
    assert(tail[0] == token);
}

} // verus!
