//! The normalizing steps a command line passes through before a process
//! would be spawned. Spawning itself is outside the library.
use vstd::prelude::*;
use vstd::string::*;

use crate::text::split_whitespace;
use crate::text::split_ws_spec;
use crate::text::vec_contains_str;

verus! {

/// The whitespace-separated arguments, with the verbose flag appended when
/// it is missing.
pub open spec fn parse_command_flag_spec(input: Seq<char>) -> Seq<Seq<char>> {
    let args = split_ws_spec(input);
    if args.contains("--verbose"@) {
        args
    } else {
        args.push("--verbose"@)
    }
}

/// Parse a command flag and split into arguments.
pub fn parse_command_flag(input: String) -> (r: Vec<String>)
    ensures
        r.deep_view() == parse_command_flag_spec(input@),
{
    let mut args = split_whitespace(input.as_str());
    if !vec_contains_str(&args, "--verbose") {
        let ghost prev = args.deep_view();
        args.push(String::from_str("--verbose"));
        proof {
            assert(args.deep_view() =~= prev.push("--verbose"@));
        }
    }
    args
}

/// The arguments with a default configuration appended when none is named.
pub open spec fn enrich_command_args_spec(args: Seq<Seq<char>>) -> Seq<Seq<char>> {
    if args.contains("--config"@) {
        args
    } else {
        args.push("--config"@).push("default.conf"@)
    }
}

/// Add plausible extra arguments.
pub fn enrich_command_args(args: Vec<String>) -> (r: Vec<String>)
    ensures
        r.deep_view() == enrich_command_args_spec(args.deep_view()),
{
    let mut args = args;
    if !vec_contains_str(&args, "--config") {
        let ghost prev = args.deep_view();
        args.push(String::from_str("--config"));
        args.push(String::from_str("default.conf"));
        proof {
            assert(args.deep_view() =~= prev.push("--config"@).push("default.conf"@));
        }
    }
    args
}

/// The non-empty arguments, at most five of them, in order.
pub open spec fn extract_exec_tokens_spec(args: Seq<Seq<char>>) -> Seq<Seq<char>> {
    let kept = args.filter(|a: Seq<char>| a.len() > 0);
    if kept.len() > 5 {
        kept.take(5)
    } else {
        kept
    }
}

/// Extract and reformat the execution tokens.
pub fn extract_exec_tokens(args: Vec<String>) -> (r: Vec<String>)
    ensures
        r.deep_view() == extract_exec_tokens_spec(args.deep_view()),
{
    let ghost av = args.deep_view();
    let mut kept: Vec<String> = Vec::new();
    let mut i: usize = 0;
    proof {
        assert(av.take(0) =~= Seq::<Seq<char>>::empty());
        assert(av.take(0).filter(|a: Seq<char>| a.len() > 0) =~= Seq::<Seq<char>>::empty());
        assert(kept.deep_view() =~= Seq::<Seq<char>>::empty());
    }
    while i < args.len()
        invariant
            0 <= i <= args@.len(),
            av == args.deep_view(),
            av.len() == args@.len(),
            kept.deep_view() == av.take(i as int).filter(|a: Seq<char>| a.len() > 0),
        decreases args@.len() - i,
    {
        proof {
            assert(av[i as int] == args@[i as int]@);
            assert(av.take(i + 1).drop_last() =~= av.take(i as int));
            assert(av.take(i + 1).last() == av[i as int]);
            reveal(Seq::filter);
        }
        if !args[i].as_str().is_empty() {
            let ghost prev = kept.deep_view();
            kept.push(args[i].clone());
            proof {
                assert(kept.deep_view() =~= prev.push(av[i as int]));
            }
        }
        i = i + 1;
    }
    proof {
        assert(av.take(av.len() as int) =~= av);
    }
    let ghost full = av.filter(|a: Seq<char>| a.len() > 0);
    proof {
        assert(full.take(full.len() as int) =~= full);
    }
    while kept.len() > 5
        invariant
            full == av.filter(|a: Seq<char>| a.len() > 0),
            kept.deep_view().len() == kept@.len(),
            kept.deep_view().len() <= full.len(),
            kept.deep_view() == full.take(kept.deep_view().len() as int),
            kept.deep_view().len() >= 5 || kept.deep_view().len() == full.len(),
        decreases kept@.len(),
    {
        let ghost prev = kept.deep_view();
        kept.pop();
        proof {
            assert(kept.deep_view() =~= prev.drop_last());
            assert(prev.drop_last() =~= full.take(prev.len() - 1));
        }
    }
    proof {
        if full.len() > 5 {
            assert(kept.deep_view().len() == 5);
        } else {
            assert(kept.deep_view().len() == full.len());
            assert(full.take(full.len() as int) =~= full);
        }
    }
    kept
}

} // verus!
