//! The execution context of operations.
//!
//! An operation that destroys bytes keeps them in a backup directory, so that
//! its inverse can put them back. The context names that directory and hands
//! out the places in it, one after the other: the first is called `0`, the
//! next `1`, and so on.

use vstd::prelude::*;
use vstd::string::*;
use crate::fs::PathView;
use crate::path::{valid_name, Path};

verus! {

/// The digit that stands for a number below ten.
pub open spec fn digit(d: nat) -> char {
    if d == 0 {
        '0'
    } else if d == 1 {
        '1'
    } else if d == 2 {
        '2'
    } else if d == 3 {
        '3'
    } else if d == 4 {
        '4'
    } else if d == 5 {
        '5'
    } else if d == 6 {
        '6'
    } else if d == 7 {
        '7'
    } else if d == 8 {
        '8'
    } else {
        '9'
    }
}

/// A number in decimal notation.
pub open spec fn decimal(n: nat) -> Seq<char>
    decreases n,
{
    if n < 10 {
        seq![digit(n)]
    } else {
        decimal(n / 10).push(digit(n % 10))
    }
}

/// A number in decimal notation is a valid name.
pub proof fn decimal_is_name(n: nat)
    ensures
        valid_name(decimal(n)),
{
    decimal_has_digits(n);
    let text = decimal(n);
    assert(!text.contains('/')) by {
        if text.contains('/') {
            let i = choose|i: int| 0 <= i < text.len() && text[i] == '/';
            assert('0' <= text[i]);
        }
    }
    assert(text != seq!['.']) by {
        if text == seq!['.'] {
            assert(seq!['.'][0] == '.');
            assert('0' <= text[0]);
        }
    }
    assert(text != seq!['.', '.']) by {
        if text == seq!['.', '.'] {
            assert(seq!['.', '.'][0] == '.');
            assert('0' <= text[0]);
        }
    }
}

/// A number in decimal notation has one digit at least, and only digits.
proof fn decimal_has_digits(n: nat)
    ensures
        decimal(n).len() > 0,
        forall|i: int| 0 <= i < decimal(n).len() ==> '0' <= #[trigger] decimal(n)[i] <= '9',
    decreases n,
{
    if n >= 10 {
        decimal_has_digits(n / 10);
    }
}

/// The text of a digit.
fn digit_text(d: u64) -> (text: &'static str)
    requires
        d < 10,
    ensures
        text@ == seq![digit(d as nat)],
{
    proof {
        reveal_strlit("0");
        reveal_strlit("1");
        reveal_strlit("2");
        reveal_strlit("3");
        reveal_strlit("4");
        reveal_strlit("5");
        reveal_strlit("6");
        reveal_strlit("7");
        reveal_strlit("8");
        reveal_strlit("9");
    }
    let text = if d == 0 {
        "0"
    } else if d == 1 {
        "1"
    } else if d == 2 {
        "2"
    } else if d == 3 {
        "3"
    } else if d == 4 {
        "4"
    } else if d == 5 {
        "5"
    } else if d == 6 {
        "6"
    } else if d == 7 {
        "7"
    } else if d == 8 {
        "8"
    } else {
        "9"
    };
    assert(text@ =~= seq![digit(d as nat)]);
    text
}

/// The text of a number in decimal notation.
pub fn decimal_text(n: u64) -> (text: String)
    ensures
        text@ == decimal(n as nat),
    decreases n,
{
    if n < 10 {
        String::from_str(digit_text(n))
    } else {
        let mut text = decimal_text(n / 10);
        text.append(digit_text(n % 10));
        assert(text@ =~= decimal((n / 10) as nat).push(digit((n % 10) as nat)));
        text
    }
}

/// The place in `backup_dir` that is handed out after `kept` others.
pub open spec fn place_of(backup_dir: PathView, kept: u64) -> PathView {
    backup_dir.push(decimal(kept as nat))
}

/// The number of places that are handed out after one more.
pub open spec fn one_more(kept: u64) -> u64 {
    if kept < u64::MAX {
        (kept + 1) as u64
    } else {
        0
    }
}

/// The execution context of operations: it names the directory in which an
/// operation keeps the bytes that it destroys, so that its inverse can find
/// them, and counts the places that it has handed out there.
#[derive(Debug, PartialEq)]
pub struct FinishCtx {
    pub backup_dir: Path,
    pub kept: u64,
}

impl FinishCtx {
    /// A context that keeps backups in `backup_dir` and has handed out no place yet.
    pub fn new(backup_dir: Path) -> (ctx: Self)
        ensures
            ctx.backup_dir@ == backup_dir@,
            ctx.kept == 0,
    {
        FinishCtx { backup_dir, kept: 0 }
    }

    /// Hands out the next place in the backup directory.
    pub fn next_place(&mut self) -> (place: Path)
        ensures
            place@ == place_of(old(self).backup_dir@, old(self).kept),
            final(self).backup_dir == old(self).backup_dir,
            final(self).kept == one_more(old(self).kept),
    {
        let name = decimal_text(self.kept);
        proof {
            decimal_is_name(self.kept as nat);
        }
        let place = match self.backup_dir.child(name.as_str()) {
            Some(place) => place,
            None => self.backup_dir.clone(),
        };
        self.kept = if self.kept < u64::MAX {
            self.kept + 1
        } else {
            0
        };
        place
    }
}

} // verus!
