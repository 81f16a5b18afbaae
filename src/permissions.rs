//! Unix permission bits: decoding a mode into owner, group and other triads.
use vstd::prelude::*;

verus! {

/// Read bit of a three-bit triad.
pub const READ_BIT: u32 = 4;

/// Write bit of a three-bit triad.
pub const WRITE_BIT: u32 = 2;

/// Execute bit of a three-bit triad.
pub const EXECUTE_BIT: u32 = 1;

/// The three permission bits of one class (owner, group or other).
#[derive(Debug)]
pub struct Permission(u32);

impl View for Permission {
    type V = u32;

    closed spec fn view(&self) -> u32 {
        self.0
    }
}

/// Owner bits of a mode: bits 8 to 6.
pub open spec fn owner_bits(mode: u32) -> u32 {
    (mode & 0o700) >> 6
}

/// Group bits of a mode: bits 5 to 3.
pub open spec fn group_bits(mode: u32) -> u32 {
    (mode & 0o070) >> 3
}

/// Other bits of a mode: bits 2 to 0.
pub open spec fn other_bits(mode: u32) -> u32 {
    mode & 0o007
}

/// The `rwx` rendering of a triad, `-` for each bit that is clear.
pub open spec fn triad_text(bits: u32) -> Seq<char> {
    seq![
        if bits & READ_BIT != 0 { 'r' } else { '-' },
        if bits & WRITE_BIT != 0 { 'w' } else { '-' },
        if bits & EXECUTE_BIT != 0 { 'x' } else { '-' },
    ]
}

impl Permission {
    pub fn readable(&self) -> (r: bool)
        ensures
            r == (self@ & READ_BIT != 0),
    {
        self.0 & READ_BIT > 0
    }

    pub fn writable(&self) -> (r: bool)
        ensures
            r == (self@ & WRITE_BIT != 0),
    {
        self.0 & WRITE_BIT > 0
    }

    pub fn executable(&self) -> (r: bool)
        ensures
            r == (self@ & EXECUTE_BIT != 0),
    {
        self.0 & EXECUTE_BIT > 0
    }

    /// The triad as three characters, such as `r-x`.
    pub fn to_string(&self) -> (r: String)
        ensures
            r@ == triad_text(self@),
    {
        let mut s = String::new();
        if self.readable() {
            s.append("r");
        } else {
            s.append("-");
        }
        if self.writable() {
            s.append("w");
        } else {
            s.append("-");
        }
        if self.executable() {
            s.append("x");
        } else {
            s.append("-");
        }
        proof {
            reveal_strlit("r");
            reveal_strlit("w");
            reveal_strlit("x");
            reveal_strlit("-");
        }
        assert(s@ =~= triad_text(self@));
        s
    }
}

/// Something that carries a Unix mode and can be split into permission triads.
pub trait UnixPermissions {
    /// The full mode value.
    spec fn mode_spec(&self) -> u32;

    fn owner(&self) -> (r: Permission)
        ensures
            r@ == owner_bits(self.mode_spec()),
    ;

    fn group(&self) -> (r: Permission)
        ensures
            r@ == group_bits(self.mode_spec()),
    ;

    fn other(&self) -> (r: Permission)
        ensures
            r@ == other_bits(self.mode_spec()),
    ;
}

/// A file mode as the file system reports it (type bits may be present too).
#[derive(Clone, Copy, Debug, PartialEq, Eq, Structural)]
pub struct Mode(pub u32);

impl UnixPermissions for Mode {
    open spec fn mode_spec(&self) -> u32 {
        self.0
    }

    fn owner(&self) -> (r: Permission) {
        Permission((self.0 & 0o700) >> 6)
    }

    fn group(&self) -> (r: Permission) {
        Permission((self.0 & 0o070) >> 3)
    }

    fn other(&self) -> (r: Permission) {
        Permission(self.0 & 0o007)
    }
}

/// The nine-character `rwxrwxrwx` rendering of a mode.
pub open spec fn mode_text(mode: u32) -> Seq<char> {
    triad_text(owner_bits(mode)) + triad_text(group_bits(mode)) + triad_text(other_bits(mode))
}

/// Renders the owner, group and other triads of `p` one after another.
pub fn permissions_text<P: UnixPermissions>(p: &P) -> (r: String)
    ensures
        r@ == mode_text(p.mode_spec()),
{
    let mut s = p.owner().to_string();
    let g = p.group().to_string();
    let o = p.other().to_string();
    s.append(g.as_str());
    s.append(o.as_str());
    s
}

} // verus!
