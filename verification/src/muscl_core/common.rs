//! Things shared by the client and the server: default paths, the unix user making a request,
//! and reading and writing yes/no cells.
use vstd::prelude::*;
use vstd::string::*;

verus! {

/// Where the configuration file is read from by default.
pub const DEFAULT_CONFIG_PATH: &'static str = "/etc/muscl/config.toml";

/// Where the server socket is by default.
pub const DEFAULT_SOCKET_PATH: &'static str = "/run/muscl/muscl.sock";

/// The banner printed by the version command.
pub const ASCII_BANNER: &'static str = "                              __\n   ____ ___  __  ____________/ /\n  / __ `__ \\/ / / / ___/ ___/ /\n / / / / / / /_/ (__  ) /__/ /\n/_/ /_/ /_/\\__,_/____/\\___/_/\n";

/// The greeting printed by the version command.
pub const KIND_REGARDS: &'static str = "Hacked together by yours truly, Programvareverkstedet <projects@pvv.ntnu.no>\nIf you experience any bugs or turbulence, please give us a heads up :)";

/// A unix user and the names of the groups it belongs to.
#[derive(Debug)]
pub struct UnixUser {
    pub username: String,
    pub groups: Vec<String>,
}

impl Clone for UnixUser {
    fn clone(&self) -> (r: Self)
        ensures
            r.username@ == self.username@,
            r.groups@.len() == self.groups@.len(),
            forall|i: int| 0 <= i < r.groups@.len() ==> #[trigger] r.groups@[i]@ == self.groups@[i]@,
    {
        let mut groups: Vec<String> = Vec::new();
        let mut i: usize = 0;
        while i < self.groups.len()
            invariant
                i <= self.groups@.len(),
                groups@.len() == i,
                forall|j: int| 0 <= j < i ==> #[trigger] groups@[j]@ == self.groups@[j]@,
            decreases self.groups@.len() - i,
        {
            groups.push(self.groups[i].clone());
            i = i + 1;
        }
        UnixUser { username: self.username.clone(), groups }
    }
}

impl UnixUser {
    /// The user as its `Display` writes it: the user name.
    pub fn to_display_string(&self) -> (r: String)
        ensures
            r@ == self.username@,
    {
        self.username.clone()
    }
}

/// Whether the process runs with another effective user or group than the one that started
/// it, which is how set-user-id and set-group-id executables run.
pub fn executing_in_suid_sgid_mode(euid: u32, uid: u32, egid: u32, gid: u32) -> (r: Result<bool, String>)
    ensures
        r == Ok::<bool, String>(euid != uid || egid != gid),
{
    Ok(euid != uid || egid != gid)
}

/// `Y` for true, `N` for false.
pub fn yn(b: bool) -> (r: &'static str)
    ensures
        r@ == (if b { "Y"@ } else { "N"@ }),
{
    if b { "Y" } else { "N" }
}

/// Whether every character of `s` is ASCII.
pub open spec fn all_ascii(s: Seq<char>) -> bool {
    forall|i: int| 0 <= i < s.len() ==> (#[trigger] s[i] as u32) < 128
}

/// `s` with the ASCII capital letters made small, and everything else kept.
pub open spec fn ascii_lowercase(s: Seq<char>) -> Seq<char> {
    s.map_values(|c: char| if 'A' <= c && c <= 'Z' { ((c as u32) + 32) as char } else { c })
}

/// What `str::to_lowercase` gives for a string that holds a character outside ASCII.
pub uninterp spec fn non_ascii_lowercase(s: Seq<char>) -> Seq<char>;

/// The lowercase of a string: for ASCII text, its capital letters made small.
pub open spec fn lowercase(s: Seq<char>) -> Seq<char> {
    if all_ascii(s) {
        ascii_lowercase(s)
    } else {
        non_ascii_lowercase(s)
    }
}

/// The lowercase of a string slice, by `str::to_lowercase`. Its documentation defines
/// lowercase by the Unicode `Lowercase` property, under which ASCII text only has its capital
/// letters made small; what it gives for other text is not written out here.
#[verifier::external_body]
fn to_lowercase(s: &str) -> (r: String)
    ensures
        r@ == (if all_ascii(s@) { ascii_lowercase(s@) } else { non_ascii_lowercase(s@) }),
{
    s.to_lowercase()
}

/// The value of a yes/no cell, from its lowercase.
pub open spec fn yn_of_lowercase(l: Seq<char>) -> Option<bool> {
    if l == "y"@ {
        Some(true)
    } else if l == "n"@ {
        Some(false)
    } else {
        None
    }
}

/// The value of a yes/no cell: `y` or `Y` is true, `n` or `N` is false.
pub open spec fn rev_yn_spec(s: Seq<char>) -> Option<bool> {
    yn_of_lowercase(lowercase(s))
}

/// The value of a yes/no cell whose lowercase is `lower`.
pub fn parse_lowercase_yn(lower: &str) -> (r: Option<bool>)
    ensures
        r == yn_of_lowercase(lower@),
{
    if str_eq_lit(lower, "y") {
        Some(true)
    } else if str_eq_lit(lower, "n") {
        Some(false)
    } else {
        None
    }
}

/// Whether `a` holds the characters of `b`.
fn str_eq_lit(a: &str, b: &str) -> (r: bool)
    ensures
        r == (a@ == b@),
{
    crate::text::str_eq(a, b)
}

/// Reads a yes/no cell, in either case: `Some(true)` for `y`, `Some(false)` for `n`.
pub fn rev_yn(s: &str) -> (r: Option<bool>)
    ensures
        r == rev_yn_spec(s@),
{
    let lower = to_lowercase(s);
    parse_lowercase_yn(lower.as_str())
}

/// On ASCII text, reading a cell goes by the letter alone: `y` and `Y` read as true, `n` and
/// `N` as false, anything else as nothing.
pub proof fn lemma_rev_yn_ascii(s: Seq<char>)
    requires
        all_ascii(s),
    ensures
        rev_yn_spec(s) == if s == "y"@ || s == "Y"@ {
            Some(true)
        } else if s == "n"@ || s == "N"@ {
            Some(false)
        } else {
            None::<bool>
        },
{
    reveal_strlit("y");
    reveal_strlit("Y");
    reveal_strlit("n");
    reveal_strlit("N");
    let l = ascii_lowercase(s);
    assert(lowercase(s) == l);
    assert(l.len() == s.len());
    if s.len() == 1 {
        assert(l[0] == (if 'A' <= s[0] && s[0] <= 'Z' { ((s[0] as u32) + 32) as char } else { s[0] }));
        if s[0] == 'Y' {
            assert(l =~= "y"@);
            assert(s =~= "Y"@);
        } else if s[0] == 'y' {
            assert(l =~= "y"@);
            assert(s =~= "y"@);
        } else if s[0] == 'N' {
            assert(l =~= "n"@);
            assert(s =~= "N"@);
        } else if s[0] == 'n' {
            assert(l =~= "n"@);
            assert(s =~= "n"@);
        } else {
            assert(l != "y"@);
            assert(l != "n"@);
            assert(s != "y"@ && s != "Y"@ && s != "n"@ && s != "N"@);
        }
    } else {
        assert(l.len() != "y"@.len());
        assert(s.len() != "Y"@.len());
    }
}

/// What `yn` writes, `rev_yn` reads back.
pub proof fn lemma_rev_yn_of_yn(b: bool)
    ensures
        rev_yn_spec(if b { "Y"@ } else { "N"@ }) == Some(b),
{
    reveal_strlit("Y");
    reveal_strlit("N");
    reveal_strlit("y");
    reveal_strlit("n");
    let s: Seq<char> = if b { "Y"@ } else { "N"@ };
    assert(s.len() == 1);
    assert(s[0] == 'Y' || s[0] == 'N');
    assert(all_ascii(s));
    lemma_rev_yn_ascii(s);
    if b {
        assert(s == "Y"@);
    } else {
        assert(s == "N"@);
        assert(s != "Y"@);
        assert(s != "y"@);
    }
}

} // verus!
