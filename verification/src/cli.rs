//! The command line. Each option flag takes the next argument as its value;
//! a later flag overrides an earlier one; other arguments are ignored.
use vstd::prelude::*;

use crate::text::{chars_eq, chars_of, push_all, string_from_chars};

verus! {

/// The options given on the command line.
#[derive(Debug, Clone)]
pub struct CliOptions {
    /// `--specs-dir`: the directory that holds the spec file.
    pub specs_dir: Option<String>,
    /// `--command`: the integrator command.
    pub command: Option<String>,
    /// `--spec-file`: the spec file's name.
    pub spec_file: Option<String>,
}

/// The mathematical value of [`CliOptions`].
pub struct OptionsView {
    pub specs_dir: Option<Seq<char>>,
    pub command: Option<Seq<char>>,
    pub spec_file: Option<Seq<char>>,
}

pub open spec fn opt_view(o: Option<String>) -> Option<Seq<char>> {
    match o {
        Some(s) => Some(s@),
        None => None,
    }
}

impl View for CliOptions {
    type V = OptionsView;

    open spec fn view(&self) -> OptionsView {
        OptionsView {
            specs_dir: opt_view(self.specs_dir),
            command: opt_view(self.command),
            spec_file: opt_view(self.spec_file),
        }
    }
}

/// Whether `a` is one of the option flags.
pub open spec fn is_flag(a: Seq<char>) -> bool {
    a == "--specs-dir"@ || a == "--command"@ || a == "--spec-file"@
}

/// The options with flag `flag` set to `value`.
pub open spec fn set_option(o: OptionsView, flag: Seq<char>, value: Seq<char>) -> OptionsView {
    if flag == "--specs-dir"@ {
        OptionsView { specs_dir: Some(value), ..o }
    } else if flag == "--command"@ {
        OptionsView { command: Some(value), ..o }
    } else {
        OptionsView { spec_file: Some(value), ..o }
    }
}

/// The message for a flag given as the last argument, with no value.
pub open spec fn missing_value(flag: Seq<char>) -> Seq<char> {
    "Error: "@ + flag + " requires a value"@
}

/// The arguments from position `i` on, read into the options `o`.
pub open spec fn parse_from(args: Seq<Seq<char>>, i: int, o: OptionsView) -> Result<
    OptionsView,
    Seq<char>,
>
    decreases args.len() - i,
{
    if i < 0 || i >= args.len() {
        Ok(o)
    } else if is_flag(args[i]) {
        if i + 1 < args.len() {
            parse_from(args, i + 2, set_option(o, args[i], args[i + 1]))
        } else {
            Err(missing_value(args[i]))
        }
    } else {
        parse_from(args, i + 1, o)
    }
}

/// The options of a whole command line; its first argument is the program's name.
pub open spec fn spec_parse_args(args: Seq<Seq<char>>) -> Result<OptionsView, Seq<char>> {
    parse_from(args, 1, OptionsView { specs_dir: None, command: None, spec_file: None })
}

pub open spec fn args_view(args: Seq<String>) -> Seq<Seq<char>> {
    args.map_values(|a: String| a@)
}

/// Which of the flags `a` is: 0, 1 or 2, or 3 when it is none of them.
fn flag_index(a: &String) -> (r: u8)
    ensures
        r <= 3,
        r == 0 <==> a@ == "--specs-dir"@,
        r == 1 <==> a@ == "--command"@,
        r == 2 <==> a@ == "--spec-file"@,
        r == 3 <==> !is_flag(a@),
{
    let v = chars_of(a.as_str());
    let d = chars_of("--specs-dir");
    let c = chars_of("--command");
    let f = chars_of("--spec-file");
    proof {
        reveal_strlit("--specs-dir");
        reveal_strlit("--command");
        reveal_strlit("--spec-file");
        assert("--specs-dir"@.len() != "--command"@.len());
        assert("--spec-file"@.len() != "--command"@.len());
        assert("--specs-dir"@[6] != "--spec-file"@[6]);
    }
    if chars_eq(&v, &d) {
        0
    } else if chars_eq(&v, &c) {
        1
    } else if chars_eq(&v, &f) {
        2
    } else {
        3
    }
}

/// Reads the command line (see [`spec_parse_args`]); a flag without a value
/// is an error.
pub fn parse_args(args: &Vec<String>) -> (r: Result<CliOptions, String>)
    ensures
        match (r, spec_parse_args(args_view(args@))) {
            (Ok(o), Ok(ov)) => o@ == ov,
            (Err(e), Err(ev)) => e@ == ev,
            _ => false,
        },
{
    let ghost av = args_view(args@);
    let mut o = CliOptions { specs_dir: None, command: None, spec_file: None };
    let mut i: usize = 1;
    while i < args.len()
        invariant
            1 <= i,
            av == args_view(args@),
            spec_parse_args(av) == parse_from(av, i as int, o@),
        decreases args.len() - i,
    {
        let which = flag_index(&args[i]);
        if which == 3 {
            i += 1;
        } else if i + 1 < args.len() {
            let value = args[i + 1].clone();
            if which == 0 {
                o.specs_dir = Some(value);
            } else if which == 1 {
                o.command = Some(value);
            } else {
                o.spec_file = Some(value);
            }
            i += 2;
        } else {
            let mut m = chars_of("Error: ");
            push_all(&mut m, &chars_of(args[i].as_str()));
            push_all(&mut m, &chars_of(" requires a value"));
            return Err(string_from_chars(&m));
        }
    }
    Ok(o)
}

} // verus!
