use vstd::prelude::*;
use vstd::string::StringExecFns;

verus! {

/// The mathematical value of a thread configuration: each option as a plain
/// optional sequence of characters (or size).
pub ghost struct BuilderSpec {
    pub name: Option<Seq<char>>,
    pub prefix: Option<Seq<char>>,
    pub stack_size: Option<usize>,
    pub wasm_bindgen_shim_url: Option<Seq<char>>,
}

/// The view of an optional owned string.
pub open spec fn opt_view(o: Option<String>) -> Option<Seq<char>> {
    match o {
        Some(s) => Some(s@),
        None => None,
    }
}

/// Thread factory: the set of spawn options for a thread-to-be. Immutable
/// once built; consumed by spawn.
pub struct Builder {
    /// A name for the thread-to-be, for identification.
    pub name: Option<String>,
    /// A prefix for the thread-to-be; an unnamed thread spawned with a prefix
    /// gets a generated numeric suffix.
    pub prefix: Option<String>,
    /// Requested stack size in bytes. Accepted but without effect: the
    /// execution environment controls stack allocation; the field is kept for
    /// interface parity with a richer threading interface.
    pub stack_size: Option<usize>,
    /// Location of the bootstrap shim script a new worker starts from.
    pub wasm_bindgen_shim_url: Option<String>,
}

impl View for Builder {
    type V = BuilderSpec;

    open spec fn view(&self) -> BuilderSpec {
        BuilderSpec {
            name: opt_view(self.name),
            prefix: opt_view(self.prefix),
            stack_size: self.stack_size,
            wasm_bindgen_shim_url: opt_view(self.wasm_bindgen_shim_url),
        }
    }
}

/// The fully-unset configuration.
pub open spec fn empty_builder() -> BuilderSpec {
    BuilderSpec { name: None, prefix: None, stack_size: None, wasm_bindgen_shim_url: None }
}

/// What a fresh default-inheriting configuration holds, given the
/// process-wide default slot.
pub open spec fn inherited_builder(default: Option<BuilderSpec>) -> BuilderSpec {
    match default {
        Some(d) => d,
        None => empty_builder(),
    }
}

pub(crate) fn clone_opt_string(o: &Option<String>) -> (r: Option<String>)
    ensures
        opt_view(r) == opt_view(*o),
{
    match o {
        Some(s) => Some(s.clone()),
        None => None,
    }
}

impl Clone for Builder {
    fn clone(&self) -> (r: Self)
        ensures
            r@ == self@,
    {
        Builder {
            name: clone_opt_string(&self.name),
            prefix: clone_opt_string(&self.prefix),
            stack_size: self.stack_size,
            wasm_bindgen_shim_url: clone_opt_string(&self.wasm_bindgen_shim_url),
        }
    }
}

/// The process-wide default configuration slot that `Builder::new` inherits
/// from. The process holds exactly one of these behind its own
/// mutual-exclusion guard (a short-held spin lock, since some callers must
/// never suspend their execution context); readers clone, never borrow.
pub struct DefaultBuilder {
    pub slot: Option<Builder>,
}

impl View for DefaultBuilder {
    type V = Option<BuilderSpec>;

    open spec fn view(&self) -> Option<BuilderSpec> {
        match self.slot {
            Some(b) => Some(b@),
            None => None,
        }
    }
}

impl DefaultBuilder {
    /// The slot before anyone has set a default.
    pub fn new() -> (d: DefaultBuilder)
        ensures
            d@ is None,
    {
        DefaultBuilder { slot: None }
    }
}

impl Builder {
    /// Creates a builder inheriting the process-wide configuration set by
    /// [`Builder::set_default`], or the fully-unset configuration if no
    /// default was ever set.
    pub fn new(defaults: &DefaultBuilder) -> (b: Builder)
        ensures
            b@ == inherited_builder(defaults@),
    {
        match &defaults.slot {
            Some(d) => d.clone(),
            None => Builder::empty(),
        }
    }

    /// Creates a builder without inheriting the process-wide default.
    pub fn empty() -> (b: Builder)
        ensures
            b@ == empty_builder(),
    {
        Builder { name: None, prefix: None, stack_size: None, wasm_bindgen_shim_url: None }
    }

    /// Sets the current values as the process-wide default for all builders
    /// created with [`Builder::new`].
    pub fn set_default(self, defaults: &mut DefaultBuilder)
        ensures
            final(defaults)@ == Some(self@),
    {
        defaults.slot = Some(self);
    }

    /// Sets the prefix of the thread.
    pub fn prefix(self, prefix: String) -> (b: Builder)
        ensures
            b@ == (BuilderSpec { prefix: Some(prefix@), ..self@ }),
    {
        Builder { prefix: Some(prefix), ..self }
    }

    /// Sets the name of the thread. If not set, a name is generated from the
    /// prefix, or the thread stays unnamed.
    pub fn name(self, name: String) -> (b: Builder)
        ensures
            b@ == (BuilderSpec { name: Some(name@), ..self@ }),
    {
        Builder { name: Some(name), ..self }
    }

    /// Sets the size of the stack (in bytes) for the new thread.
    ///
    /// The execution environment does not let a library choose stack sizes,
    /// so the value is recorded and has no further effect; the method exists
    /// for interface parity.
    pub fn stack_size(self, size: usize) -> (b: Builder)
        ensures
            b@ == (BuilderSpec { stack_size: Some(size), ..self@ }),
    {
        Builder { stack_size: Some(size), ..self }
    }

    /// Sets the location of the generated shim script a new worker boots
    /// from.
    pub fn wasm_bindgen_shim_url(self, url: String) -> (b: Builder)
        ensures
            b@ == (BuilderSpec { wasm_bindgen_shim_url: Some(url@), ..self@ }),
    {
        Builder { wasm_bindgen_shim_url: Some(url), ..self }
    }
}

/// The decimal digit character for one digit value.
pub open spec fn decimal_digit(d: nat) -> char {
    if d == 0 { '0' }
    else if d == 1 { '1' }
    else if d == 2 { '2' }
    else if d == 3 { '3' }
    else if d == 4 { '4' }
    else if d == 5 { '5' }
    else if d == 6 { '6' }
    else if d == 7 { '7' }
    else if d == 8 { '8' }
    else { '9' }
}

/// The decimal representation of a number, most significant digit first.
pub open spec fn decimal_rep(n: nat) -> Seq<char>
    decreases n,
{
    if n < 10 {
        seq![decimal_digit(n)]
    } else {
        decimal_rep(n / 10) + seq![decimal_digit(n % 10)]
    }
}

/// The display name a worker is created under, resolved from the
/// configuration's name and prefix: both present gives `prefix:name`, a name
/// alone is used as is, a prefix alone gets a generated numeric suffix
/// (collision-tolerant, not guaranteed unique), and neither leaves the worker
/// unnamed.
pub open spec fn resolved_worker_name(
    name: Option<Seq<char>>,
    prefix: Option<Seq<char>>,
    rand: u64,
) -> Option<Seq<char>> {
    match (name, prefix) {
        (Some(n), Some(p)) => Some(p + seq![':'] + n),
        (Some(n), None) => Some(n),
        (None, Some(p)) => Some(p + seq![':'] + decimal_rep(rand as nat)),
        (None, None) => None,
    }
}

fn digit_str(d: u64) -> (r: &'static str)
    requires
        d < 10,
    ensures
        r@ == seq![decimal_digit(d as nat)],
{
    let r: &'static str = if d == 0 { "0" }
    else if d == 1 { "1" }
    else if d == 2 { "2" }
    else if d == 3 { "3" }
    else if d == 4 { "4" }
    else if d == 5 { "5" }
    else if d == 6 { "6" }
    else if d == 7 { "7" }
    else if d == 8 { "8" }
    else { "9" };
    proof {
        reveal_strlit("0");
        reveal_strlit("1");
        reveal_strlit("2");
        reveal_strlit("3");
        reveal_strlit("4");
        reveal_strlit("5");
        reveal_strlit("6");
        reveal_strlit("7");
        reveal_strlit("8");
        reveal_strlit("9");
        assert(r@ =~= seq![decimal_digit(d as nat)]);
    }
    r
}

fn push_decimal(n: u64, out: &mut String)
    ensures
        final(out)@ == old(out)@ + decimal_rep(n as nat),
    decreases n,
{
    if n >= 10 {
        proof {
            assert(n / 10 < n) by (nonlinear_arith)
                requires n >= 10;
        }
        push_decimal(n / 10, out);
    }
    out.append(digit_str(n % 10));
    proof {
        if n < 10 {
            assert(n % 10 == n);
        }
        assert(out@ =~= old(out)@ + decimal_rep(n as nat));
    }
}

/// Renders a number in decimal, exactly as `decimal_rep` describes it.
pub fn u64_to_decimal(n: u64) -> (r: String)
    ensures
        r@ == decimal_rep(n as nat),
{
    let mut s = String::new();
    push_decimal(n, &mut s);
    proof {
        assert(s@ =~= decimal_rep(n as nat));
    }
    s
}

/// Resolves the display name for a new worker from a configuration's name
/// and prefix, exactly as `resolved_worker_name` describes it. `rand` is the
/// entropy the caller drew for the generated suffix.
pub fn resolve_worker_name(
    name: Option<String>,
    prefix: Option<String>,
    rand: u64,
) -> (r: Option<String>)
    ensures
        opt_view(r) == resolved_worker_name(opt_view(name), opt_view(prefix), rand),
{
    let ghost name0 = opt_view(name);
    let ghost prefix0 = opt_view(prefix);
    match (name, prefix) {
        (Some(n), Some(p)) => {
            let mut s = p;
            s.append(":");
            s.append(n.as_str());
            proof {
                reveal_strlit(":");
                assert(s@ =~= prefix0.unwrap() + seq![':'] + name0.unwrap());
            }
            Some(s)
        },
        (Some(n), None) => Some(n),
        (None, Some(p)) => {
            let mut s = p;
            s.append(":");
            let digits = u64_to_decimal(rand);
            s.append(digits.as_str());
            proof {
                reveal_strlit(":");
                assert(s@ =~= prefix0.unwrap() + seq![':'] + decimal_rep(rand as nat));
            }
            Some(s)
        },
        (None, None) => None,
    }
}

} // verus!
