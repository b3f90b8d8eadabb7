//! Day 13: the arcade cabinet.  The machine's output arrives in triples of
//! x, y and tile id; the screen keeps one tile per position and a score.
use crate::intcode::{wf, Intcode, RunState};
use crate::solve::{run_text_to_halt, SolveError, DEFAULT_BUDGET};
use vstd::prelude::*;
use vstd::string::StringSliceAdditionalSpecFns;

verus! {

#[derive(Debug, Clone, Copy, PartialEq, Eq, Structural)]
pub enum Tile {
    Empty,
    Wall,
    Block,
    Paddle,
    Ball,
}

impl Tile {
    /// The tile a machine output value denotes, if any.
    pub fn from(i: i64) -> (r: Option<Tile>)
        ensures
            r == (if i == 0 {
                Some(Tile::Empty)
            } else if i == 1 {
                Some(Tile::Wall)
            } else if i == 2 {
                Some(Tile::Block)
            } else if i == 3 {
                Some(Tile::Paddle)
            } else if i == 4 {
                Some(Tile::Ball)
            } else {
                None
            }),
    {
        match i {
            0 => Some(Tile::Empty),
            1 => Some(Tile::Wall),
            2 => Some(Tile::Block),
            3 => Some(Tile::Paddle),
            4 => Some(Tile::Ball),
            _ => None,
        }
    }

    /// The character the tile is drawn with.
    pub fn draw(&self) -> (r: u8)
        ensures
            r == (match self {
                Tile::Empty => 32u8,
                Tile::Wall => 35u8,
                Tile::Block => 79u8,
                Tile::Paddle => 95u8,
                Tile::Ball => 64u8,
            }),
    {
        match self {
            Tile::Empty => 32,
            Tile::Wall => 35,
            Tile::Block => 79,
            Tile::Paddle => 95,
            Tile::Ball => 64,
        }
    }
}

/// No position occurs twice in the tile list.
pub open spec fn positions_unique(s: Seq<(i64, i64, Tile)>) -> bool {
    forall|i: int, j: int|
        0 <= i < j < s.len() ==> !(#[trigger] s[i].0 == #[trigger] s[j].0 && s[i].1 == s[j].1)
}

/// How many entries hold a block tile.
pub open spec fn count_blocks(s: Seq<(i64, i64, Tile)>) -> int
    decreases s.len(),
{
    if s.len() == 0 {
        0
    } else {
        count_blocks(s.drop_last()) + (if s.last().2 is Block {
            1int
        } else {
            0int
        })
    }
}

pub struct Screen {
    tiles: Vec<(i64, i64, Tile)>,
    score: i64,
}

impl Screen {
    pub closed spec fn tiles_view(&self) -> Seq<(i64, i64, Tile)> {
        self.tiles@
    }

    pub closed spec fn score_view(&self) -> i64 {
        self.score
    }

    pub open spec fn inv(&self) -> bool {
        positions_unique(self.tiles_view())
    }

    pub fn new() -> (r: Screen)
        ensures
            r.inv(),
            r.tiles_view().len() == 0,
            r.score_view() == 0,
    {
        Screen { tiles: Vec::new(), score: 0 }
    }

    /// The last score the program reported.
    pub fn score(&self) -> (r: i64)
        ensures
            r == self.score_view(),
    {
        self.score
    }

    /// How many positions currently show a block.
    pub fn blocks(&self) -> (r: u64)
        requires
            self.tiles_view().len() <= u64::MAX,
        ensures
            r == count_blocks(self.tiles_view()),
    {
        let mut cnt: u64 = 0;
        let mut i: usize = 0;
        while i < self.tiles.len()
            invariant
                i <= self.tiles@.len(),
                cnt == count_blocks(self.tiles@.take(i as int)),
                cnt <= i,
            decreases self.tiles@.len() - i,
        {
            proof {
                assert(self.tiles@.take(i + 1).drop_last() =~= self.tiles@.take(i as int));
            }
            match self.tiles[i].2 {
                Tile::Block => {
                    cnt = cnt + 1;
                },
                _ => {},
            }
            i = i + 1;
        }
        proof {
            assert(self.tiles@.take(self.tiles@.len() as int) =~= self.tiles@);
        }
        cnt
    }

    /// Record one output triple: position (-1, 0) carries the score, any
    /// other position takes the given tile.  An unknown tile id is refused.
    pub fn set(&mut self, x: i64, y: i64, t: i64) -> (r: Result<(), SolveError>)
        requires
            old(self).inv(),
        ensures
            final(self).inv(),
            r is Err ==> !(t == 0 || t == 1 || t == 2 || t == 3 || t == 4),
    {
        if x == -1 && y == 0 {
            self.score = t;
            return Ok(());
        }
        let tile = match Tile::from(t) {
            Some(tile) => tile,
            None => {
                return Err(SolveError::Protocol);
            },
        };
        let mut i: usize = 0;
        while i < self.tiles.len()
            invariant
                i <= self.tiles@.len(),
                self.inv(),
                forall|j: int| 0 <= j < i ==> !(#[trigger] self.tiles@[j].0 == x && self.tiles@[j].1 == y),
            decreases self.tiles@.len() - i,
        {
            let e = self.tiles[i];
            if e.0 == x && e.1 == y {
                self.tiles.set(i, (x, y, tile));
                proof {
                    assert(positions_unique(self.tiles@));
                }
                return Ok(());
            }
            i = i + 1;
        }
        self.tiles.push((x, y, tile));
        proof {
            assert(positions_unique(self.tiles@));
        }
        Ok(())
    }

    /// The position of the most recently drawn tile of the given kind.
    fn find_last(&self, t: Tile) -> (r: Option<(i64, i64)>) {
        let mut found: Option<(i64, i64)> = None;
        let mut i: usize = 0;
        while i < self.tiles.len()
            invariant
                i <= self.tiles@.len(),
            decreases self.tiles@.len() - i,
        {
            let e = self.tiles[i];
            if e.2 == t {
                found = Some((e.0, e.1));
            }
            i = i + 1;
        }
        found
    }
}

/// Feed one drained output burst, in triples, into the screen.
fn apply_output(screen: &mut Screen, out: &Vec<i64>) -> (r: Result<(), SolveError>)
    requires
        old(screen).inv(),
    ensures
        final(screen).inv(),
{
    if out.len() % 3 != 0 {
        return Err(SolveError::Protocol);
    }
    let mut i: usize = 0;
    while i < out.len() / 3
        invariant
            screen.inv(),
            i <= out@.len() / 3,
        decreases out@.len() / 3 - i,
    {
        let i3 = i * 3;
        let r = screen.set(out[i3], out[i3 + 1], out[i3 + 2]);
        match r {
            Ok(()) => {},
            Err(e) => {
                return Err(e);
            },
        }
        i = i + 1;
    }
    Ok(())
}

/// Part one: how many block tiles the drawing program leaves on screen.
pub fn d13a(text: &str) -> (r: Result<u64, SolveError>)
    requires
        text.spec_bytes().len() <= usize::MAX - 8,
    ensures
        !crate::parse::valid_program(text.spec_bytes()) ==> r == Result::<
            u64,
            SolveError,
        >::Err(SolveError::Parse),
{
    let out = run_text_to_halt(text, &[], DEFAULT_BUDGET)?;
    let mut screen = Screen::new();
    match apply_output(&mut screen, &out) {
        Ok(()) => {},
        Err(e) => {
            return Err(e);
        },
    }
    if screen.tiles.len() > 1000000 {
        return Err(SolveError::Protocol);
    }
    Ok(screen.blocks())
}

/// Rounds the game loop is allowed.
const MAX_GAME_ROUNDS: u64 = 1000000;

/// Part two: play the game with the paddle tracking the ball, two quarters
/// inserted, until no block is left; the score then on display.
pub fn d13b(text: &str) -> (r: Result<i64, SolveError>)
    requires
        text.spec_bytes().len() <= usize::MAX - 8,
    ensures
        !crate::parse::valid_program(text.spec_bytes()) ==> r == Result::<
            i64,
            SolveError,
        >::Err(SolveError::Parse),
{
    let mut program = match Intcode::from_text(text) {
        Ok(m) => m,
        Err(_) => {
            return Err(SolveError::Parse);
        },
    };
    match program.set_value(0, 2) {
        Ok(()) => {},
        Err(_) => {
            return Err(SolveError::Protocol);
        },
    }
    let mut screen = Screen::new();
    let mut input: Vec<i64> = Vec::new();
    let mut rounds: u64 = 0;
    while rounds < MAX_GAME_ROUNDS
        invariant
            wf(program@),
            screen.inv(),
            crate::parse::valid_program(text.spec_bytes()),
            input@.len() <= 1,
        decreases MAX_GAME_ROUNDS - rounds,
    {
        match program.run(input.as_slice(), DEFAULT_BUDGET) {
            Ok(RunState::OutOfSteps) => {
                return Err(SolveError::OutOfSteps);
            },
            Err(e) => {
                return Err(SolveError::Exec(e));
            },
            _ => {},
        }
        let out = program.drain();
        match apply_output(&mut screen, &out) {
            Ok(()) => {},
            Err(e) => {
                return Err(e);
            },
        }
        if screen.tiles.len() > 1000000 {
            return Err(SolveError::Protocol);
        }
        if screen.blocks() == 0 {
            return Ok(screen.score());
        }
        let ball = screen.find_last(Tile::Ball);
        let paddle = screen.find_last(Tile::Paddle);
        let steer: i64 = match (ball, paddle) {
            (Some(b), Some(p)) => if p.0 > b.0 {
                -1
            } else if p.0 < b.0 {
                1
            } else {
                0
            },
            _ => 0,
        };
        input = Vec::new();
        input.push(steer);
        rounds = rounds + 1;
    }
    Err(SolveError::OutOfSteps)
}

} // verus!
