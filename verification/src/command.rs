//! Ex commands: what they ask of the editor, and the settings that `:set`
//! and `:syntax` change.
use vstd::prelude::*;
use crate::settings::AppContext;
use crate::text_util::str_eq;

verus! {

/// What an ex command asks of the editor.
#[derive(Debug, Clone, Copy, PartialEq, Eq, Structural)]
pub enum ExResult {
    Exit,
}

/// The settings after `:set` with the one argument `arg`: `wrap` and
/// `nowrap`; `nu`, `number`, `nonu` and `nonumber` for line numbers; `fold`
/// and `nofold`; `foldmultiline` and `nofoldmultiline`; `tree`,
/// `treesitter`, `notree` and `notreesitter`. Any other argument changes
/// nothing.
pub open spec fn set_option_spec(s: AppContext, arg: Seq<char>) -> AppContext {
    if arg == "wrap"@ {
        AppContext { wrap: true, ..s }
    } else if arg == "nowrap"@ {
        AppContext { wrap: false, ..s }
    } else if arg == "nu"@ || arg == "number"@ {
        AppContext { show_line_numbers: true, ..s }
    } else if arg == "nonu"@ || arg == "nonumber"@ {
        AppContext { show_line_numbers: false, ..s }
    } else if arg == "fold"@ {
        AppContext { fold: true, ..s }
    } else if arg == "nofold"@ {
        AppContext { fold: false, ..s }
    } else if arg == "foldmultiline"@ {
        AppContext { fold_multiline_only: true, ..s }
    } else if arg == "nofoldmultiline"@ {
        AppContext { fold_multiline_only: false, ..s }
    } else if arg == "tree"@ || arg == "treesitter"@ {
        AppContext { tree_sitter: true, ..s }
    } else if arg == "notree"@ || arg == "notreesitter"@ {
        AppContext { tree_sitter: false, ..s }
    } else {
        s
    }
}

/// The settings after `:set` with the arguments `args`, taken in order.
pub open spec fn set_options_spec(s: AppContext, args: Seq<Seq<char>>) -> AppContext
    decreases args.len(),
{
    if args.len() == 0 {
        s
    } else {
        set_option_spec(set_options_spec(s, args.drop_last()), args.last())
    }
}

/// The settings after `:syntax` with the argument `arg`: `on` and `off`
/// switch highlighting; anything else, or no argument, changes nothing.
pub open spec fn syntax_option_spec(s: AppContext, arg: Option<Seq<char>>) -> AppContext {
    match arg {
        Some(a) => if a == "on"@ {
            AppContext { syntax: true, ..s }
        } else if a == "off"@ {
            AppContext { syntax: false, ..s }
        } else {
            s
        },
        None => s,
    }
}

/// Applies one `:set` argument; see [`set_option_spec`].
pub fn set_option(settings: &mut AppContext, arg: &str)
    ensures
        *final(settings) == set_option_spec(*old(settings), arg@),
{
    if str_eq(arg, "wrap") {
        settings.wrap = true;
    } else if str_eq(arg, "nowrap") {
        settings.wrap = false;
    } else if str_eq(arg, "nu") || str_eq(arg, "number") {
        settings.show_line_numbers = true;
    } else if str_eq(arg, "nonu") || str_eq(arg, "nonumber") {
        settings.show_line_numbers = false;
    } else if str_eq(arg, "fold") {
        settings.fold = true;
    } else if str_eq(arg, "nofold") {
        settings.fold = false;
    } else if str_eq(arg, "foldmultiline") {
        settings.fold_multiline_only = true;
    } else if str_eq(arg, "nofoldmultiline") {
        settings.fold_multiline_only = false;
    } else if str_eq(arg, "tree") || str_eq(arg, "treesitter") {
        settings.tree_sitter = true;
    } else if str_eq(arg, "notree") || str_eq(arg, "notreesitter") {
        settings.tree_sitter = false;
    }
}

/// Applies the arguments of a `:set` command in order; see
/// [`set_options_spec`].
pub fn set_options(settings: &mut AppContext, args: &Vec<String>)
    ensures
        *final(settings) == set_options_spec(*old(settings), args@.map_values(|a: String| a@)),
{
    let ghost view = args@.map_values(|a: String| a@);
    let mut i: usize = 0;
    while i < args.len()
        invariant
            i <= args@.len(),
            view == args@.map_values(|a: String| a@),
            *settings == set_options_spec(*old(settings), view.take(i as int)),
        decreases args@.len() - i,
    {
        set_option(settings, args[i].as_str());
        proof {
            assert(view.take(i + 1).drop_last() =~= view.take(i as int));
            assert(view.take(i + 1).last() == args@[i as int]@);
        }
        i = i + 1;
    }
    proof {
        assert(view.take(i as int) =~= view);
    }
}

/// Applies a `:syntax` command; see [`syntax_option_spec`].
pub fn syntax_option(settings: &mut AppContext, arg: Option<&str>)
    ensures
        *final(settings) == syntax_option_spec(
            *old(settings),
            match arg {
                Some(a) => Some(a@),
                None => None,
            },
        ),
{
    match arg {
        Some(a) => {
            if str_eq(a, "on") {
                settings.syntax = true;
            } else if str_eq(a, "off") {
                settings.syntax = false;
            }
        },
        None => {},
    }
}

/// The first index at or after `i` where `ids` holds `id`.
pub open spec fn first_position(ids: Seq<usize>, id: usize, i: int) -> Option<int>
    decreases ids.len() - i,
{
    if i < 0 || i >= ids.len() {
        None
    } else if ids[i] == id {
        Some(i)
    } else {
        first_position(ids, id, i + 1)
    }
}

/// The buffer that `:bnext` (`forward`) or `:bprev` shows after `current`
/// among the open buffers `ids`, going round at either end; `None` where
/// `current` is not open.
pub open spec fn cycled_buffer(ids: Seq<usize>, current: usize, forward: bool) -> Option<usize> {
    match first_position(ids, current, 0) {
        None => None,
        Some(p) => Some(
            if forward {
                ids[(p + 1) % (ids.len() as int)]
            } else if p == 0 {
                ids[ids.len() - 1]
            } else {
                ids[p - 1]
            },
        ),
    }
}

proof fn lemma_first_position_in_range(ids: Seq<usize>, id: usize, i: int)
    requires
        0 <= i,
    ensures
        first_position(ids, id, i) matches Some(p) ==> i <= p < ids.len() && ids[p] == id,
    decreases ids.len() - i,
{
    if i < ids.len() && ids[i] != id {
        lemma_first_position_in_range(ids, id, i + 1);
    }
}

/// The buffer to show for `:bnext` (`forward`) or `:bprev`; see
/// [`cycled_buffer`].
pub fn cycle_buffer(ids: &Vec<usize>, current: usize, forward: bool) -> (r: Option<usize>)
    ensures
        r == cycled_buffer(ids@, current, forward),
{
    let n = ids.len();
    let mut i: usize = 0;
    while i < n
        invariant
            n == ids@.len(),
            i <= n,
            first_position(ids@, current, 0) == first_position(ids@, current, i as int),
        decreases n - i,
    {
        if ids[i] == current {
            proof {
                lemma_first_position_in_range(ids@, current, 0);
            }
            let next = if forward {
                ids[(i + 1) % n]
            } else if i == 0 {
                ids[n - 1]
            } else {
                ids[i - 1]
            };
            return Some(next);
        }
        i = i + 1;
    }
    None
}

} // verus!
