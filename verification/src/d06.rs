//! Day 6: the orbit graph.  Each body orbits exactly one parent; the counts
//! asked for are walks over that tree.
use crate::parse::ParseError;
use vstd::prelude::*;
use vstd::string::StringSliceAdditionalSpecFns;

verus! {

/// A body's name, as bytes.
pub type Name = Vec<u8>;

/// A directed graph from each body to the bodies orbiting it.
pub struct Graph {
    nodes: Vec<(Name, Vec<Name>)>,
}

/// Steps any walk over the graph is allowed.
pub const MAX_WALK: u64 = 1000000;

impl Graph {
    pub closed spec fn view(&self) -> Seq<(Seq<u8>, Seq<Seq<u8>>)> {
        self.nodes@.map_values(
            |e: (Name, Vec<Name>)| (e.0@, e.1@.map_values(|c: Name| c@)),
        )
    }

    pub fn new() -> (r: Graph)
        ensures
            r@.len() == 0,
    {
        Graph { nodes: Vec::new() }
    }

    /// Record that `b` orbits `a`.
    pub fn add_edge(&mut self, a: Name, b: Name) {
        let mut i: usize = 0;
        while i < self.nodes.len()
            decreases self.nodes@.len() - i,
        {
            if self.nodes[i].0 == a {
                let mut entry = self.nodes.remove(i);
                entry.1.push(b);
                self.nodes.insert(i, entry);
                return ;
            }
            i = i + 1;
        }
        let mut children: Vec<Name> = Vec::new();
        children.push(b);
        self.nodes.push((a, children));
    }

    /// Build a graph from parent-child pairs.
    pub fn from_edges(edges: Vec<(Name, Name)>) -> (r: Graph) {
        let mut g = Graph::new();
        let mut i: usize = 0;
        while i < edges.len()
            decreases edges@.len() - i,
        {
            let a = edges[i].0.clone();
            let b = edges[i].1.clone();
            g.add_edge(a, b);
            i = i + 1;
        }
        g
    }

    /// The body `node` orbits, if the graph records one.
    pub fn parent(&self, node: &Name) -> (r: Option<Name>) {
        let mut i: usize = 0;
        while i < self.nodes.len()
            decreases self.nodes@.len() - i,
        {
            let entry = &self.nodes[i];
            let mut j: usize = 0;
            while j < entry.1.len()
                decreases entry.1@.len() - j,
            {
                if entry.1[j] == *node {
                    return Some(entry.0.clone());
                }
                j = j + 1;
            }
            i = i + 1;
        }
        None
    }

    /// The bodies orbiting `node` directly.
    pub fn children(&self, node: &Name) -> (r: Vec<Name>) {
        let mut i: usize = 0;
        while i < self.nodes.len()
            decreases self.nodes@.len() - i,
        {
            if self.nodes[i].0 == *node {
                return self.nodes[i].1.clone();
            }
            i = i + 1;
        }
        Vec::new()
    }

    /// Breadth-first walk from `node`: every body reachable from it, with
    /// its distance, each visited once.  Nothing on a runaway walk.
    pub fn walk(&self, node: &Name) -> (r: Option<Vec<(u64, Name)>>)
        ensures
            r matches Some(w) ==> w@.len() <= MAX_WALK,
    {
        let mut found: Vec<Name> = Vec::new();
        let mut out: Vec<(u64, Name)> = Vec::new();
        let mut queue: Vec<(u64, Name)> = Vec::new();
        queue.push((0, node.clone()));
        let mut head: usize = 0;
        let mut steps: u64 = 0;
        while steps < MAX_WALK
            invariant
                head <= queue@.len(),
                steps <= MAX_WALK,
                out@.len() <= steps,
            decreases MAX_WALK - steps,
        {
            if head >= queue.len() {
                return Some(out);
            }
            let d = queue[head].0;
            let cur = queue[head].1.clone();
            head = head + 1;
            if !contains_name(&found, &cur) {
                found.push(cur.clone());
                out.push((d, cur.clone()));
                let kids = self.children(&cur);
                let mut j: usize = 0;
                while j < kids.len()
                    invariant
                        head <= queue@.len(),
                    decreases kids@.len() - j,
                {
                    if d < MAX_WALK {
                        queue.push((d + 1, kids[j].clone()));
                    }
                    j = j + 1;
                }
            }
            steps = steps + 1;
        }
        None
    }

    /// The nearest body whose orbit walk reaches both `a` and `b`: climb
    /// from `a` until `b` is in reach.
    pub fn shared(&self, a: &Name, b: &Name) -> (r: Option<Name>) {
        let mut p = a.clone();
        let mut steps: u64 = 0;
        while steps < MAX_WALK
            decreases MAX_WALK - steps,
        {
            if p == *b {
                return Some(p);
            }
            let reach = match self.walk(&p) {
                Some(w) => w,
                None => {
                    return None;
                },
            };
            let mut i: usize = 0;
            while i < reach.len()
                decreases reach@.len() - i,
            {
                if reach[i].1 == *b {
                    return Some(p);
                }
                i = i + 1;
            }
            p = match self.parent(&p) {
                Some(q) => q,
                None => {
                    return None;
                },
            };
            steps = steps + 1;
        }
        None
    }

    /// Orbital transfers between `a` and `b`: their distances from the
    /// nearest shared body, added.
    pub fn distance(&self, a: &Name, b: &Name) -> (r: Option<u64>) {
        let s = self.shared(a, b)?;
        let reach = self.walk(&s)?;
        let mut sum: u64 = 0;
        let mut i: usize = 0;
        while i < reach.len()
            invariant
                sum <= 2 * MAX_WALK,
            decreases reach@.len() - i,
        {
            let (d, ref n) = reach[i];
            if *n == *a || *n == *b {
                if d > MAX_WALK || sum > MAX_WALK {
                    return None;
                }
                sum = sum + d;
            }
            i = i + 1;
        }
        Some(sum)
    }
}

/// Whether the list holds the name.
fn contains_name(s: &Vec<Name>, c: &Name) -> (r: bool)
    ensures
        r == exists|i: int| 0 <= i < s@.len() && s@[i]@ == c@,
{
    let mut i: usize = 0;
    while i < s.len()
        invariant
            i <= s@.len(),
            forall|j: int| 0 <= j < i ==> s@[j]@ != c@,
        decreases s@.len() - i,
    {
        if s[i] == *c {
            proof {
                assert(s@[i as int]@ == c@);
            }
            return true;
        }
        i = i + 1;
    }
    false
}

/// Parse newline-separated `PARENT)CHILD` lines; blank lines are passed
/// over.
pub fn parse_graph(s: &str) -> (r: Result<Graph, ParseError>)
    requires
        s.spec_bytes().len() <= usize::MAX - 8,
{
    let b = s.as_bytes();
    let n = b.len();
    let mut g = Graph::new();
    let mut i: usize = 0;
    while i < n
        invariant
            i <= n + 1,
            n == b@.len(),
            n <= usize::MAX - 8,
        decreases n + 1 - i,
    {
        let start = i;
        let mut j = i;
        let mut sep: usize = 0;
        let mut seen_sep = false;
        while j < n && b[j] != 10
            invariant
                start <= j <= n,
                n == b@.len(),
                seen_sep ==> start <= sep < j,
            decreases n - j,
        {
            if b[j] == 41 && !seen_sep {
                sep = j;
                seen_sep = true;
            }
            j = j + 1;
        }
        if j > start {
            if !seen_sep || sep == start || sep + 1 == j {
                return Err(ParseError);
            }
            let a = bytes_range(b, start, sep);
            let c = bytes_range(b, sep + 1, j);
            g.add_edge(a, c);
        }
        i = j + 1;
    }
    Ok(g)
}

/// The bytes of a range, copied out.
fn bytes_range(b: &[u8], lo: usize, hi: usize) -> (r: Name)
    requires
        lo <= hi <= b@.len(),
    ensures
        r@ == b@.subrange(lo as int, hi as int),
{
    let mut out: Name = Vec::new();
    let mut i = lo;
    while i < hi
        invariant
            lo <= i <= hi <= b@.len(),
            out@ == b@.subrange(lo as int, i as int),
        decreases hi - i,
    {
        out.push(b[i]);
        proof {
            assert(out@ =~= b@.subrange(lo as int, i + 1));
        }
        i = i + 1;
    }
    out
}

/// Part one: the total orbit count, direct and indirect; each body counts
/// once for every body on its walk but itself.
pub fn count_edges(g: &Graph, start: &Name) -> (r: Option<u64>) {
    let reach = g.walk(start)?;
    let mut sum: u64 = 0;
    let mut i: usize = 0;
    while i < reach.len()
        invariant
            i <= reach@.len(),
            reach@.len() <= MAX_WALK,
            sum as int <= (MAX_WALK as int) * (i as int),
        decreases reach@.len() - i,
    {
        let sub = g.walk(&reach[i].1)?;
        if sub.len() == 0 {
            return None;
        }
        if sub.len() > MAX_WALK as usize {
            return None;
        }
        sum = sum + (sub.len() - 1) as u64;
        i = i + 1;
    }
    Some(sum)
}

/// Part one over the orbit map text.
pub fn d06a(s: &str) -> (r: Option<u64>)
    requires
        s.spec_bytes().len() <= usize::MAX - 8,
{
    let g = match parse_graph(s) {
        Ok(g) => g,
        Err(_) => {
            return None;
        },
    };
    let mut start: Name = Vec::new();
    start.push(67);
    start.push(79);
    start.push(77);
    count_edges(&g, &start)
}

/// Part two: transfers between the bodies that YOU and SAN orbit.
pub fn d06b(s: &str) -> (r: Option<u64>)
    requires
        s.spec_bytes().len() <= usize::MAX - 8,
{
    let g = match parse_graph(s) {
        Ok(g) => g,
        Err(_) => {
            return None;
        },
    };
    let mut you: Name = Vec::new();
    you.push(89);
    you.push(79);
    you.push(85);
    let mut san: Name = Vec::new();
    san.push(83);
    san.push(65);
    san.push(78);
    let yp = g.parent(&you)?;
    let sp = g.parent(&san)?;
    g.distance(&yp, &sp)
}

} // verus!
