//! The books of a scratch directory: how much it holds, whether more fits, and
//! how its files are named. The files themselves are the caller's.
use vstd::prelude::*;

use crate::number::{decimal, decimal_of};
use crate::text::{
    after_last,
    before_first,
    join2,
    join3,
    text_after_last,
    text_before,
};

verus! {

/// A scratch directory's limit and usage.
#[derive(Debug)]
pub struct ScratchArena {
    /// Maximum total bytes, 0 for no limit.
    pub max_bytes: u64,
    /// Approximate bytes in use.
    pub current_bytes: u64,
}

/// The generator of file names, one for all the directories of a process: each
/// goes on where the last one stopped.
#[derive(Debug)]
pub struct FileNames {
    pub state: u64,
}

/// Why a file cannot be staged.
#[derive(Clone, Copy, Debug, PartialEq, Eq, Structural)]
pub enum ArenaError {
    /// The limit would be exceeded.
    LimitExceeded { current: u64, needed: u64, max: u64 },
}

impl ArenaError {
    /// The message of an error.
    pub open spec fn spec_message(self) -> Seq<char> {
        match self {
            ArenaError::LimitExceeded { current, needed, max } =>
                "scratch arena limit exceeded: "@ + decimal(current as nat) + " + "@ + decimal(
                needed as nat,
            ) + " > "@ + decimal(max as nat) + " bytes"@,
        }
    }

    /// The message of an error.
    pub fn message(self) -> (r: String)
        ensures
            r@ == self.spec_message(),
    {
        match self {
            ArenaError::LimitExceeded { current, needed, max } => {
                let mut s = join2(
                    "scratch arena limit exceeded: ",
                    decimal_of(current).as_str(),
                );
                s = join3(s.as_str(), " + ", decimal_of(needed).as_str());
                s = join3(s.as_str(), " > ", decimal_of(max).as_str());
                join2(s.as_str(), " bytes")
            },
        }
    }
}

/// The state that follows on a state.
pub open spec fn next_state(x: u64) -> u64 {
    let a = x ^ (x << 13);
    let b = a ^ (a >> 7);
    b ^ (b << 17)
}

/// The state after `n` steps.
pub open spec fn state_after(x: u64, n: nat) -> u64
    decreases n,
{
    if n == 0 {
        x
    } else {
        next_state(state_after(x, (n - 1) as nat))
    }
}

/// The character of a state: a digit or a lower-case letter.
pub open spec fn state_char(x: u64) -> char {
    let i = x % 36;
    if i < 10 {
        (48 + i) as char
    } else {
        (87 + i) as char
    }
}

/// The characters of the `n` states behind `x`.
pub open spec fn state_chars(x: u64, n: nat) -> Seq<char> {
    Seq::new(n, |i: int| state_char(state_after(x, (i + 1) as nat)))
}

/// The generator never comes to rest: a state that is not 0 is followed by one
/// that is not 0.
pub proof fn law_state_never_zero(x: u64, n: nat)
    requires
        x != 0,
    ensures
        state_after(x, n) != 0,
    decreases n,
{
    if n > 0 {
        law_state_never_zero(x, (n - 1) as nat);
        let y = state_after(x, (n - 1) as nat);
        assert(y ^ (y << 13) != 0) by (bit_vector)
            requires
                y != 0u64,
        ;
        let a = y ^ (y << 13);
        assert(a ^ (a >> 7) != 0) by (bit_vector)
            requires
                a != 0u64,
        ;
        let b = a ^ (a >> 7);
        assert(b ^ (b << 17) != 0) by (bit_vector)
            requires
                b != 0u64,
        ;
    }
}

/// The name of an output file.
pub open spec fn output_name(state: u64, suffix: Seq<char>) -> Seq<char> {
    "out_"@ + state_chars(state, 8) + "."@ + suffix
}

/// The first two output files of a process have different names, whatever their
/// suffix.
pub proof fn law_first_names_differ(suffix: Seq<char>)
    ensures
        output_name(1, suffix) != output_name(state_after(1, 8), suffix),
{
    assert(next_state(1) == 0x40822041u64 && next_state(0x40822041) == 0x100041060c011441u64
        && next_state(0x100041060c011441) == 0x9b1e842f6e862629u64 && next_state(0x9b1e842f6e862629)
        == 0xf554f503555d8025u64 && next_state(0xf554f503555d8025) == 0x860c1fb090599265u64
        && next_state(0x860c1fb090599265) == 0xf6b05302e5531801u64 && next_state(0xf6b05302e5531801)
        == 0xa2460108ebbd9e71u64 && next_state(0xa2460108ebbd9e71) == 0xc62c9fc114d9590du64
        && next_state(0xc62c9fc114d9590d) == 0x7d3e032e9a7908ffu64) by (bit_vector);
    reveal_with_fuel(state_after, 9);
    assert(state_after(1, 1) == 0x40822041);
    assert(state_after(1, 8) == 0xc62c9fc114d9590d);
    assert(state_after(0xc62c9fc114d9590d, 1) == 0x7d3e032e9a7908ff);
    let a = state_chars(1, 8);
    let b = state_chars(state_after(1, 8), 8);
    assert(a[0] == 'x' && b[0] == '3');
    reveal_strlit("out_");
    assert(output_name(1, suffix)[4] == a[0]);
    assert(output_name(state_after(1, 8), suffix)[4] == b[0]);
}

/// Whether `needed` more bytes fit.
pub open spec fn fits(max: u64, current: u64, needed: u64) -> bool {
    max == 0 || current + needed <= max
}

impl FileNames {
    /// The generator at its start.
    pub fn new() -> (r: FileNames)
        ensures
            r.state == 1,
    {
        FileNames { state: 1 }
    }

    /// The next character of a file name.
    fn fast_random_char(&mut self) -> (r: char)
        ensures
            final(self).state == next_state(old(self).state),
            r == state_char(next_state(old(self).state)),
    {
        let x: u64 = self.state;
        let a: u64 = x ^ (x << 13);
        let b: u64 = a ^ (a >> 7);
        let c: u64 = b ^ (b << 17);
        self.state = c;
        let i: u8 = (c % 36) as u8;
        if i < 10 {
            (48 + i) as char
        } else {
            (87 + i) as char
        }
    }

    /// The next eight characters of a file name.
    fn random_suffix(&mut self) -> (r: String)
        ensures
            final(self).state == state_after(old(self).state, 8),
            r@ == state_chars(old(self).state, 8),
    {
        let ghost x = self.state;
        let mut s = String::new();
        let mut n: usize = 0;
        while n < 8
            invariant
                n <= 8,
                x == old(self).state,
                self.state == state_after(x, n as nat),
                s@ =~= state_chars(x, n as nat),
            decreases 8 - n,
        {
            let c = self.fast_random_char();
            s.push(c);
            n += 1;
        }
        s
    }
}

impl ScratchArena {
    /// An empty directory with a limit.
    pub fn new(max_bytes: u64) -> (r: ScratchArena)
        ensures
            r.max_bytes == max_bytes,
            r.current_bytes == 0,
    {
        ScratchArena { max_bytes, current_bytes: 0 }
    }

    /// Approximate bytes in use.
    pub fn current_usage(&self) -> (r: u64)
        ensures
            r == self.current_bytes,
    {
        self.current_bytes
    }

    /// Maximum total bytes, 0 for no limit.
    pub fn max_bytes(&self) -> (r: u64)
        ensures
            r == self.max_bytes,
    {
        self.max_bytes
    }

    /// Whether `needed` more bytes may come.
    pub fn check_room(&self, needed: u64) -> (r: Result<(), ArenaError>)
        ensures
            r == (if fits(self.max_bytes, self.current_bytes, needed) {
                Ok::<(), ArenaError>(())
            } else {
                Err(
                    ArenaError::LimitExceeded {
                        current: self.current_bytes,
                        needed,
                        max: self.max_bytes,
                    },
                )
            }),
    {
        if self.max_bytes > 0 && (self.current_bytes > self.max_bytes || needed > self.max_bytes
            - self.current_bytes) {
            return Err(
                ArenaError::LimitExceeded {
                    current: self.current_bytes,
                    needed,
                    max: self.max_bytes,
                },
            );
        }
        Ok(())
    }

    /// Takes a file of these bytes into the books and names it after a hint.
    /// Returns its name, or an error and no change of the books where the limit
    /// would be exceeded.
    pub fn stage_bytes(&mut self, names: &mut FileNames, bytes: &[u8], hint_name: &str) -> (r: Result<
        String,
        ArenaError,
    >)
        ensures
            final(self).max_bytes == old(self).max_bytes,
            match r {
                Ok(name) => {
                    &&& fits(old(self).max_bytes, old(self).current_bytes, bytes@.len() as u64)
                    &&& name@ == hint_name@ + "_"@ + state_chars(old(names).state, 8)
                    &&& final(names).state == state_after(old(names).state, 8)
                    &&& final(self).current_bytes == sum_of(
                        old(self).current_bytes,
                        bytes@.len() as u64,
                    )
                },
                Err(e) => {
                    &&& !fits(old(self).max_bytes, old(self).current_bytes, bytes@.len() as u64)
                    &&& e == ArenaError::LimitExceeded {
                        current: old(self).current_bytes,
                        needed: bytes@.len() as u64,
                        max: old(self).max_bytes,
                    }
                    &&& *final(self) == *old(self)
                    &&& *final(names) == *old(names)
                },
            },
    {
        let len: u64 = bytes.len() as u64;
        match self.check_room(len) {
            Ok(()) => {},
            Err(e) => return Err(e),
        }
        let suffix = names.random_suffix();
        self.current_bytes = self.current_bytes.wrapping_add(len);
        Ok(join3(hint_name, "_", suffix.as_str()))
    }

    /// Names a download: after the last path segment of its URL, without the
    /// query.
    pub fn stage_url(&self, names: &mut FileNames, url: &str) -> (r: String)
        ensures
            final(names).state == state_after(old(names).state, 8),
            r@ == (if url_stem(url@).len() == 0 {
                "dl_"@ + state_chars(old(names).state, 8)
            } else {
                url_stem(url@) + "_"@ + state_chars(old(names).state, 8)
            }),
    {
        let stem = text_before(text_after_last(url, '/').as_str(), '?');
        let suffix = names.random_suffix();
        if stem.as_str().is_empty() {
            join2("dl_", suffix.as_str())
        } else {
            join3(stem.as_str(), "_", suffix.as_str())
        }
    }

    /// Names an output file. The books stay as they are.
    pub fn output_path(&self, names: &mut FileNames, suffix: &str) -> (r: String)
        ensures
            final(names).state == state_after(old(names).state, 8),
            r@ == output_name(old(names).state, suffix@),
    {
        let middle = names.random_suffix();
        join2(join3("out_", middle.as_str(), ".").as_str(), suffix)
    }

    /// Takes a file of `len` bytes that others wrote, and that was read back, into
    /// the books.
    pub fn read_output(&mut self, len: u64)
        ensures
            *final(self) == (ScratchArena {
                current_bytes: sum_of(old(self).current_bytes, len),
                ..*old(self)
            }),
    {
        self.current_bytes = self.current_bytes.wrapping_add(len);
    }

    /// Takes a removed file of `len` bytes out of the books.
    pub fn remove(&mut self, len: u64)
        ensures
            *final(self) == (ScratchArena {
                current_bytes: difference_of(old(self).current_bytes, len),
                ..*old(self)
            }),
    {
        self.current_bytes = self.current_bytes.wrapping_sub(len);
    }
}

/// The last path segment of a URL without the query.
pub open spec fn url_stem(url: Seq<char>) -> Seq<char> {
    before_first(after_last(url, '/'), '?')
}

/// A sum of counters, which wraps round.
pub open spec fn sum_of(a: u64, b: u64) -> u64 {
    ((a + b) % 0x1_0000_0000_0000_0000) as u64
}

/// A difference of counters, which wraps round.
pub open spec fn difference_of(a: u64, b: u64) -> u64 {
    ((a - b) % 0x1_0000_0000_0000_0000) as u64
}

/// A file that comes and goes leaves the usage as it was.
pub proof fn law_stage_then_remove(current: u64, len: u64)
    ensures
        difference_of(sum_of(current, len), len) == current,
{
}

} // verus!
