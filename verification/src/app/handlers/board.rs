//! The board of ratings: one line for each player, in the order of the teams, filled in as
//! the ratings come.

use crate::app::scout::unrated_line;
use crate::text::{concat, join, joined, views};
use vstd::prelude::*;

verus! {

/// The lines of the players of a team, as far as they are known.
pub struct Column {
    pub names: Vec<String>,
    pub lines: Vec<Option<String>>,
}

/// What a `Column` holds.
pub struct ColumnView {
    pub names: Seq<Seq<char>>,
    pub lines: Seq<Option<Seq<char>>>,
}

impl View for Column {
    type V = ColumnView;

    open spec fn view(&self) -> ColumnView {
        ColumnView {
            names: views(self.names@),
            lines: Seq::new(
                self.lines@.len(),
                |i: int|
                    match self.lines@[i] {
                        Some(s) => Some(s@),
                        None => None,
                    },
            ),
        }
    }
}

impl ColumnView {
    /// There is a place for the line of every player.
    pub open spec fn well_formed(self) -> bool {
        self.names.len() == self.lines.len()
    }

    /// The line of a player, or a stand-in until it is known.
    pub open spec fn line(self, i: int) -> Seq<char> {
        match self.lines[i] {
            Some(s) => s,
            None => "-- "@ + self.names[i] + " 评分:加载中..."@,
        }
    }

    /// The lines of all the players.
    pub open spec fn text(self) -> Seq<char> {
        joined(Seq::new(self.names.len(), |i: int| self.line(i)), "\n"@)
    }
}

impl Column {
    /// A column for players none of whose lines are known.
    pub fn new(names: Vec<String>) -> (r: Column)
        ensures
            r@.names == views(names@),
            r@.well_formed(),
            forall|i: int| 0 <= i < r@.lines.len() ==> #[trigger] r@.lines[i] is None,
    {
        let mut lines: Vec<Option<String>> = Vec::new();
        let mut i: usize = 0;
        while i < names.len()
            invariant
                i <= names@.len(),
                lines@.len() == i,
                forall|k: int| 0 <= k < i ==> #[trigger] lines@[k] is None,
            decreases names@.len() - i,
        {
            lines.push(None);
            i += 1;
        }
        Column { names, lines }
    }

    /// Fills in the line of a player.
    pub fn set(&mut self, i: usize, line: String)
        requires
            old(self)@.well_formed(),
            i < old(self)@.names.len(),
        ensures
            final(self)@.names == old(self)@.names,
            final(self)@.lines == old(self)@.lines.update(i as int, Some(line@)),
            final(self)@.well_formed(),
    {
        let ghost before = self@;
        self.lines.set(i, Some(line));
        assert(self@.lines =~= before.lines.update(i as int, Some(line@)));
    }

    /// The lines of all the players.
    pub fn text(&self) -> (r: String)
        requires
            self@.well_formed(),
        ensures
            r@ == self@.text(),
    {
        let mut out: Vec<String> = Vec::new();
        let mut i: usize = 0;
        while i < self.names.len()
            invariant
                self@.well_formed(),
                i <= self.names@.len(),
                out@.len() == i,
                forall|k: int| 0 <= k < i ==> #[trigger] out@[k]@ == self@.line(k),
            decreases self.names@.len() - i,
        {
            let line = match &self.lines[i] {
                Some(s) => s.clone(),
                None => {
                    let mut s = concat("-- ", self.names[i].as_str());
                    s.append(" 评分:加载中...");
                    s
                },
            };
            assert(line@ == self@.line(i as int));
            out.push(line);
            i += 1;
        }
        assert(views(out@) =~= Seq::new(self@.names.len(), |i: int| self@.line(i)));
        join(&out, "\n")
    }
}

/// The board: the player's own team and the other.
pub struct Board {
    pub mine: Column,
    pub theirs: Column,
}

/// The message of a board. The other team is left out where nobody is in it.
pub open spec fn board_text(mine: ColumnView, theirs: ColumnView) -> Seq<char> {
    "[我方评分]\n"@ + mine.text() + "\n"@ + (if theirs.names.len() > 0 {
        "\n[对方评分]\n"@ + theirs.text() + "\n"@
    } else {
        Seq::empty()
    })
}

impl Board {
    /// A board on which nothing is known.
    pub fn new(mine: Vec<String>, theirs: Vec<String>) -> (r: Board)
        ensures
            r.mine@.names == views(mine@),
            r.theirs@.names == views(theirs@),
            r.mine@.well_formed(),
            r.theirs@.well_formed(),
            forall|i: int| 0 <= i < r.mine@.lines.len() ==> #[trigger] r.mine@.lines[i] is None,
            forall|i: int| 0 <= i < r.theirs@.lines.len() ==> #[trigger] r.theirs@.lines[i] is None,
    {
        Board { mine: Column::new(mine), theirs: Column::new(theirs) }
    }

    /// The message.
    pub fn message(&self) -> (r: String)
        requires
            self.mine@.well_formed(),
            self.theirs@.well_formed(),
        ensures
            r@ == board_text(self.mine@, self.theirs@),
    {
        let mut r = concat("[我方评分]\n", self.mine.text().as_str());
        r.append("\n");
        if self.theirs.names.len() > 0 {
            r.append("\n[对方评分]\n");
            r.append(self.theirs.text().as_str());
            r.append("\n");
        }
        assert(r@ =~= board_text(self.mine@, self.theirs@));
        r
    }
}

/// The line for a player who was rated, on the board.
pub fn rating_line(grade: &str, name: &str, score: &str, kda: &str) -> (r: String)
    ensures
        r@ == grade@ + " "@ + name@ + " 评分:"@ + score@ + " KDA:"@ + kda@,
{
    let mut r = concat(grade, " ");
    r.append(name);
    r.append(" 评分:");
    r.append(score);
    r.append(" KDA:");
    r.append(kda);
    r
}

/// The line for a player who could not be rated, on the board.
pub fn failure_line(name: &str) -> (r: String)
    ensures
        r@ == unrated_line(name@),
{
    let mut r = concat("-- ", name);
    r.append(" 评分:获取失败");
    r
}

/// Filling in two players' lines in either order gives the same board.
pub proof fn law_fill_order_does_not_matter(
    c: ColumnView,
    i: int,
    a: Seq<char>,
    j: int,
    b: Seq<char>,
)
    requires
        0 <= i < c.lines.len(),
        0 <= j < c.lines.len(),
        i != j,
    ensures
        c.lines.update(i, Some(a)).update(j, Some(b)) == c.lines.update(j, Some(b)).update(
            i,
            Some(a),
        ),
{
    assert(c.lines.update(i, Some(a)).update(j, Some(b)) =~= c.lines.update(j, Some(b)).update(
        i,
        Some(a),
    ));
}

} // verus!
