//! Day 14: the nanofactory.  Recipes form a directed acyclic graph from
//! fuel down to ore; production is charged top-down along a topological
//! order, and the fuel for a trillion ore is found by bisection.
use vstd::prelude::*;
use vstd::string::StringSliceAdditionalSpecFns;

verus! {

/// A material's name, as bytes.
pub type Name = Vec<u8>;

#[derive(Debug)]
pub struct Material {
    pub name: Name,
    pub quantity: u64,
}

#[derive(Debug)]
pub struct Recipe {
    pub input: Vec<Material>,
    pub output: Material,
}

#[derive(Debug)]
pub struct Collection {
    pub recipes: Vec<Recipe>,
}

/// The quotient rounded upward.
pub fn div_round_up(n: u64, d: u64) -> (r: u64)
    requires
        d >= 1,
    ensures
        r == (if n % d == 0 {
            n as int / d as int
        } else {
            n as int / d as int + 1
        }),
{
    if n % d != 0 {
        proof {
            vstd::arithmetic::div_mod::lemma_fundamental_div_mod(n as int, d as int);
            assert(((n as int) / (d as int)) < (n as int)) by (nonlinear_arith)
                requires
                    d >= 2,
                    (n as int) == (d as int) * ((n as int) / (d as int)) + (n as int) % (d as int),
                    (n as int) % (d as int) >= 1,
                    ((n as int) / (d as int)) >= 0,
            ;
        }
        n / d + 1
    } else {
        n / d
    }
}

/// Whether the name list holds `c`.
fn contains_name(s: &Vec<Name>, c: &Name) -> (r: bool)
    ensures
        r == exists|i: int| 0 <= i < s@.len() && s@[i]@ == c@,
{
    let mut i: usize = 0;
    while i < s.len()
        invariant
            i <= s@.len(),
            forall|j: int| 0 <= j < i ==> s@[j]@ != c@,
        decreases s@.len() - i,
    {
        if s[i] == *c {
            proof {
                assert(s@[i as int]@ == c@);
            }
            return true;
        }
        i = i + 1;
    }
    false
}

/// A copy of a byte name.
fn copy_name(n: &Name) -> (r: Name)
    ensures
        r@ == n@,
{
    let mut out: Name = Vec::new();
    let mut i: usize = 0;
    while i < n.len()
        invariant
            i <= n@.len(),
            out@ == n@.take(i as int),
        decreases n@.len() - i,
    {
        out.push(n[i]);
        i = i + 1;
        proof {
            assert(out@ =~= n@.take(i as int));
        }
    }
    proof {
        assert(n@.take(n@.len() as int) =~= n@);
    }
    out
}

impl Collection {
    /// The index of the recipe producing `material`, if one does.
    pub fn find(&self, material: &Name) -> (r: Option<usize>)
        ensures
            r matches Some(i) ==> i < self.recipes@.len(),
    {
        let mut i: usize = 0;
        while i < self.recipes.len()
            invariant
                i <= self.recipes@.len(),
            decreases self.recipes@.len() - i,
        {
            if self.recipes[i].output.name == *material {
                return Some(i);
            }
            i = i + 1;
        }
        None
    }

    /// The raw materials: every input no recipe produces, each named once.
    pub fn base(&self) -> (r: Vec<Name>) {
        let mut out: Vec<Name> = Vec::new();
        let mut i: usize = 0;
        while i < self.recipes.len()
            invariant
                i <= self.recipes@.len(),
            decreases self.recipes@.len() - i,
        {
            let mut j: usize = 0;
            while j < self.recipes[i].input.len()
                invariant
                    i < self.recipes@.len(),
                    j <= self.recipes@[i as int].input@.len(),
                decreases self.recipes@[i as int].input@.len() - j,
            {
                let name = copy_name(&self.recipes[i].input[j].name);
                if self.find(&name).is_none() && !contains_name(&out, &name) {
                    out.push(name);
                }
                j = j + 1;
            }
            i = i + 1;
        }
        out
    }

    /// A topological order of the materials, raw ones first; nothing when
    /// the recipes hold a cycle.
    pub fn sorted(&self) -> (r: Option<Vec<Name>>) {
        let mut order: Vec<Name> = Vec::new();
        let mut queue: Vec<Name> = self.base();
        let mut head: usize = 0;
        // Peel a mutable copy of the recipe table: a recipe whose inputs
        // are all ordered releases its output.
        let mut remaining: Vec<(Vec<Name>, Name)> = Vec::new();
        let mut i: usize = 0;
        while i < self.recipes.len()
            invariant
                i <= self.recipes@.len(),
            decreases self.recipes@.len() - i,
        {
            let mut inputs: Vec<Name> = Vec::new();
            let mut j: usize = 0;
            while j < self.recipes[i].input.len()
                invariant
                    i < self.recipes@.len(),
                    j <= self.recipes@[i as int].input@.len(),
                decreases self.recipes@[i as int].input@.len() - j,
            {
                inputs.push(copy_name(&self.recipes[i].input[j].name));
                j = j + 1;
            }
            remaining.push((inputs, copy_name(&self.recipes[i].output.name)));
            i = i + 1;
        }
        let mut steps: u64 = 0;
        while steps < 1000000
            invariant
                head <= queue@.len(),
            decreases 1000000 - steps,
        {
            if head >= queue.len() {
                if remaining.len() > 0 {
                    // Some recipe never released: a cycle.
                    return None;
                }
                return Some(order);
            }
            let name = copy_name(&queue[head]);
            head = head + 1;
            if !contains_name(&order, &name) {
                order.push(copy_name(&name));
                let mut k = remaining.len();
                while k > 0
                    invariant
                        k <= remaining@.len(),
                        head <= queue@.len(),
                    decreases k,
                {
                    k = k - 1;
                    let entry = remaining.remove(k);
                    let mut kept: Vec<Name> = Vec::new();
                    let mut t: usize = 0;
                    let inputs = entry.0;
                    while t < inputs.len()
                        invariant
                            t <= inputs@.len(),
                        decreases inputs@.len() - t,
                    {
                        if !(inputs[t] == name) {
                            kept.push(copy_name(&inputs[t]));
                        }
                        t = t + 1;
                    }
                    if kept.len() == 0 {
                        queue.push(copy_name(&entry.1));
                    } else {
                        remaining.insert(k, (kept, entry.1));
                    }
                }
            }
            steps = steps + 1;
        }
        None
    }

    /// The raw totals to produce `material`, charged along `order` from
    /// the product down; nothing on a malformed table or overflowing
    /// amounts.
    pub fn find_total_raw_from_sort(&self, order: &Vec<Name>, material: &Material) -> (r: Option<
        Vec<Material>,
    >) {
        let base = self.base();
        let mut amounts: Vec<(Name, u64)> = Vec::new();
        amounts.push((copy_name(&material.name), material.quantity));
        let mut idx = order.len();
        while idx > 0
            invariant
                idx <= order@.len(),
            decreases idx,
        {
            idx = idx - 1;
            let m = copy_name(&order[idx]);
            if contains_name(&base, &m) {
                continue ;
            }
            let ri = match self.find(&m) {
                Some(i) => i,
                None => {
                    continue ;
                },
            };
            let needed = lookup_amount(&amounts, &m);
            if self.recipes[ri].output.quantity == 0 {
                return None;
            }
            let multi = div_round_up(needed, self.recipes[ri].output.quantity);
            let mut j: usize = 0;
            while j < self.recipes[ri].input.len()
                invariant
                    ri < self.recipes@.len(),
                    j <= self.recipes@[ri as int].input@.len(),
                decreases self.recipes@[ri as int].input@.len() - j,
            {
                let inp = &self.recipes[ri].input[j];
                let charge = match inp.quantity.checked_mul(multi) {
                    Some(c) => c,
                    None => {
                        return None;
                    },
                };
                if !add_amount(&mut amounts, &inp.name, charge) {
                    return None;
                }
                j = j + 1;
            }
        }
        let mut out: Vec<Material> = Vec::new();
        let mut k: usize = 0;
        while k < amounts.len()
            invariant
                k <= amounts@.len(),
            decreases amounts@.len() - k,
        {
            if contains_name(&base, &amounts[k].0) {
                out.push(Material { name: copy_name(&amounts[k].0), quantity: amounts[k].1 });
            }
            k = k + 1;
        }
        Some(out)
    }

    /// The raw totals to produce `material`, over a fresh topological order.
    pub fn total_raw(&self, material: &Material) -> (r: Option<Vec<Material>>) {
        let order = self.sorted()?;
        self.find_total_raw_from_sort(&order, material)
    }
}

/// The amount recorded for a name, zero when absent.
fn lookup_amount(amounts: &Vec<(Name, u64)>, name: &Name) -> (r: u64) {
    let mut i: usize = 0;
    while i < amounts.len()
        invariant
            i <= amounts@.len(),
        decreases amounts@.len() - i,
    {
        if amounts[i].0 == *name {
            return amounts[i].1;
        }
        i = i + 1;
    }
    0
}

/// Add to a name's amount; false when the total leaves 64 bits.
fn add_amount(amounts: &mut Vec<(Name, u64)>, name: &Name, charge: u64) -> (ok: bool) {
    let mut i: usize = 0;
    while i < amounts.len()
        invariant
            i <= amounts@.len(),
        decreases amounts@.len() - i,
    {
        if amounts[i].0 == *name {
            let entry = amounts.remove(i);
            match entry.1.checked_add(charge) {
                Some(total) => {
                    amounts.insert(i, (entry.0, total));
                    return true;
                },
                None => {
                    return false;
                },
            }
        }
        i = i + 1;
    }
    amounts.push((copy_name(name), charge));
    true
}

/// Parse one `N NAME` pair from a byte range.
fn parse_material(b: &[u8], lo: usize, hi: usize) -> (r: Option<Material>)
    requires
        lo <= hi <= b@.len(),
{
    let mut i = lo;
    while i < hi && b[i] == 32
        invariant
            lo <= i <= hi <= b@.len(),
        decreases hi - i,
    {
        i = i + 1;
    }
    let dstart = i;
    let mut qty: u64 = 0;
    while i < hi && 48 <= b[i] && b[i] <= 57
        invariant
            dstart <= i <= hi <= b@.len(),
            qty <= 2000000000000000000,
        decreases hi - i,
    {
        if qty > 100000000000000000 {
            return None;
        }
        qty = qty * 10 + (b[i] - 48) as u64;
        i = i + 1;
    }
    if i == dstart {
        return None;
    }
    if i >= hi || b[i] != 32 {
        return None;
    }
    i = i + 1;
    let nstart = i;
    let mut name: Name = Vec::new();
    while i < hi
        invariant
            nstart <= i <= hi <= b@.len(),
        decreases hi - i,
    {
        if b[i] == 32 {
            return None;
        }
        name.push(b[i]);
        i = i + 1;
    }
    if name.len() == 0 {
        return None;
    }
    Some(Material { name, quantity: qty })
}

/// Parse a recipe line: comma-separated inputs, an arrow, one output.
fn parse_recipe(b: &[u8], lo: usize, hi: usize) -> (r: Option<Recipe>)
    requires
        lo <= hi <= b@.len(),
{
    // Find the " => " separator.
    let mut arrow = lo;
    loop
        invariant_except_break
            lo <= arrow <= hi <= b@.len(),
        ensures
            lo <= arrow,
            arrow + 4 <= hi,
            hi <= b@.len(),
        decreases hi - arrow,
    {
        if hi - arrow < 4 {
            return None;
        }
        if b[arrow] == 32 && b[arrow + 1] == 61 && b[arrow + 2] == 62 && b[arrow + 3] == 32 {
            break ;
        }
        arrow = arrow + 1;
    }
    let output = parse_material(b, arrow + 4, hi)?;
    let mut input: Vec<Material> = Vec::new();
    let mut k = lo;
    while k < arrow
        invariant
            lo <= k,
            k <= arrow + 2,
            arrow + 4 <= hi,
            hi <= b@.len(),
        decreases arrow + 2 - k,
    {
        let seg_start = k;
        let mut m = k;
        while m < arrow && b[m] != 44
            invariant
                seg_start <= m <= arrow <= b@.len(),
            decreases arrow - m,
        {
            m = m + 1;
        }
        let mat = parse_material(b, seg_start, m)?;
        input.push(mat);
        k = m + 2;
    }
    if input.len() == 0 {
        return None;
    }
    Some(Recipe { input, output })
}

/// Parse newline-separated recipe lines; blank lines are passed over.
pub fn parse_input(s: &str) -> (r: Option<Collection>)
    requires
        s.spec_bytes().len() <= usize::MAX - 8,
{
    let b = s.as_bytes();
    let n = b.len();
    let mut recipes: Vec<Recipe> = Vec::new();
    let mut i: usize = 0;
    while i < n
        invariant
            i <= n + 1,
            n == b@.len(),
            n <= usize::MAX - 8,
        decreases n + 1 - i,
    {
        let start = i;
        let mut j = i;
        while j < n && b[j] != 10
            invariant
                start <= j <= n,
                n == b@.len(),
            decreases n - j,
        {
            j = j + 1;
        }
        if j > start {
            let recipe = parse_recipe(b, start, j)?;
            recipes.push(recipe);
        }
        i = j + 1;
    }
    Some(Collection { recipes })
}

/// The FUEL name.
fn fuel_name() -> (r: Name) {
    let mut n: Name = Vec::new();
    n.push(70);
    n.push(85);
    n.push(69);
    n.push(76);
    n
}

/// Part one: raw material for one unit of fuel — the first raw total.
pub fn d14a(text: &str) -> (r: Option<u64>)
    requires
        text.spec_bytes().len() <= usize::MAX - 8,
{
    let collection = parse_input(text)?;
    let result = collection.total_raw(&Material { name: fuel_name(), quantity: 1 })?;
    if result.len() == 0 {
        return None;
    }
    Some(result[0].quantity)
}

/// Part two: the most fuel producible from `total` raw units, found by
/// bisection over the monotone per-fuel cost.
pub fn d14b(text: &str, total: u64) -> (r: Option<u64>)
    requires
        text.spec_bytes().len() <= usize::MAX - 8,
        total >= 1,
{
    let collection = parse_input(text)?;
    let order = collection.sorted()?;
    let fuel = fuel_name();
    let one = collection.find_total_raw_from_sort(
        &order,
        &Material { name: copy_name(&fuel), quantity: 1 },
    )?;
    if one.len() == 0 || one[0].quantity == 0 {
        return None;
    }
    let mut min = total / one[0].quantity;
    let mut max = match min.checked_mul(2) {
        Some(m) => m,
        None => u64::MAX,
    };
    if max <= min {
        return Some(min);
    }
    while max - min > 1
        invariant
            min < max,
        decreases max - min,
    {
        let mid = min + (max - min) / 2;
        let result = collection.find_total_raw_from_sort(
            &order,
            &Material { name: copy_name(&fuel), quantity: mid },
        )?;
        if result.len() == 0 {
            return None;
        }
        let required = result[0].quantity;
        if required > total {
            max = mid;
        } else if required < total {
            min = mid;
        } else {
            return Some(mid);
        }
    }
    Some(min)
}

} // verus!
