//! The optional sender identity in front of a message: either a bare
//! server-or-nick token, or a `nick!user@host` triple.
use vstd::prelude::*;
use crate::text::{contains_char, str_chars, chars_str, push_char};

verus! {

/// A message prefix. A bare token with a period and no separators is a
/// server name as far as anyone can tell, so the ambiguity is kept in a
/// single variant.
#[derive(Debug, PartialEq)]
pub enum Prefix {
    ServerOrNick(String),
    Nickname(String, String, String),
}

/// The mathematical shape of a `Prefix`.
pub enum PrefixV {
    ServerOrNick(Seq<char>),
    Nickname(Seq<char>, Seq<char>, Seq<char>),
}

impl View for Prefix {
    type V = PrefixV;

    open spec fn view(&self) -> PrefixV {
        match self {
            Prefix::ServerOrNick(s) => PrefixV::ServerOrNick(s@),
            Prefix::Nickname(n, u, h) => PrefixV::Nickname(n@, u@, h@),
        }
    }
}

/// Which part of the triple the prefix scanner is filling.
#[derive(PartialEq, Eq, Structural, Clone, Copy)]
pub enum PrefixPhase {
    Name,
    User,
    Host,
}

/// One pass of the prefix scanner from position `i` with the parts
/// accumulated so far. `!` while in the name moves to the user part,
/// `@` outside the host moves to the host part. A token that never
/// leaves the name is a bare server-or-nick; nothing in the token can
/// tell the two apart, so the ambiguity is kept.
pub open spec fn prefix_scan(
    s: Seq<char>,
    i: int,
    name: Seq<char>,
    user: Seq<char>,
    host: Seq<char>,
    phase: PrefixPhase,
) -> PrefixV
    decreases s.len() - i,
{
    if i < 0 || i >= s.len() {
        if phase == PrefixPhase::Name {
            PrefixV::ServerOrNick(name)
        } else {
            PrefixV::Nickname(name, user, host)
        }
    } else {
        let c = s[i];
        if c == '!' && phase == PrefixPhase::Name {
            prefix_scan(s, i + 1, name, user, host, PrefixPhase::User)
        } else if c == '@' && phase != PrefixPhase::Host {
            prefix_scan(s, i + 1, name, user, host, PrefixPhase::Host)
        } else if phase == PrefixPhase::Name {
            prefix_scan(s, i + 1, name.push(c), user, host, phase)
        } else if phase == PrefixPhase::User {
            prefix_scan(s, i + 1, name, user.push(c), host, phase)
        } else {
            prefix_scan(s, i + 1, name, user, host.push(c), phase)
        }
    }
}

/// What parsing a raw prefix token yields.
pub open spec fn prefix_parse(s: Seq<char>) -> PrefixV {
    prefix_scan(
        s,
        0,
        Seq::<char>::empty(),
        Seq::<char>::empty(),
        Seq::<char>::empty(),
        PrefixPhase::Name,
    )
}

/// How a prefix is written: the name, then `!user` when the user part is
/// not empty, then `@host` when the host part is not empty.
pub open spec fn prefix_text(p: PrefixV) -> Seq<char> {
    match p {
        PrefixV::ServerOrNick(n) => n,
        PrefixV::Nickname(n, u, h) => {
            let with_user = if u.len() > 0 {
                n + seq!['!'] + u
            } else {
                n
            };
            if h.len() > 0 {
                with_user + seq!['@'] + h
            } else {
                with_user
            }
        },
    }
}

/// A prefix the writer can reproduce: no spaces anywhere; a bare
/// server-or-nick token holds no separators; a triple's name holds no
/// separators, its user part no `@`, and at least one of its user and
/// host parts is present, else it would read back as a bare token.
pub open spec fn canonical_prefix(p: PrefixV) -> bool {
    match p {
        PrefixV::ServerOrNick(n) => !contains_char(n, '!') && !contains_char(n, '@')
            && !contains_char(n, ' '),
        PrefixV::Nickname(n, u, h) => !contains_char(n, '!') && !contains_char(n, '@')
            && !contains_char(n, ' ') && !contains_char(u, '@') && !contains_char(u, ' ')
            && !contains_char(h, ' ') && (u.len() > 0 || h.len() > 0),
    }
}

/// Scanning a run of the name free of separators appends it to the
/// name.
proof fn lemma_scan_name_run(
    s: Seq<char>,
    i: int,
    k: int,
    name: Seq<char>,
    user: Seq<char>,
    host: Seq<char>,
)
    requires
        0 <= i <= k <= s.len(),
        forall|j: int| i <= j < k ==> #[trigger] s[j] != '!' && s[j] != '@',
    ensures
        prefix_scan(s, i, name, user, host, PrefixPhase::Name) == prefix_scan(
            s,
            k,
            name + s.subrange(i, k),
            user,
            host,
            PrefixPhase::Name,
        ),
    decreases k - i,
{
    if i == k {
        assert(s.subrange(i, k) =~= Seq::<char>::empty());
        assert(name + s.subrange(i, k) =~= name);
    } else {
        lemma_scan_name_run(s, i + 1, k, name.push(s[i]), user, host);
        assert(name.push(s[i]) + s.subrange(i + 1, k) =~= name + s.subrange(i, k));
    }
}

/// Scanning a run of the user part free of `@` appends it to the user
/// part.
proof fn lemma_scan_user_run(
    s: Seq<char>,
    i: int,
    k: int,
    name: Seq<char>,
    user: Seq<char>,
    host: Seq<char>,
)
    requires
        0 <= i <= k <= s.len(),
        forall|j: int| i <= j < k ==> #[trigger] s[j] != '@',
    ensures
        prefix_scan(s, i, name, user, host, PrefixPhase::User) == prefix_scan(
            s,
            k,
            name,
            user + s.subrange(i, k),
            host,
            PrefixPhase::User,
        ),
    decreases k - i,
{
    if i == k {
        assert(user + s.subrange(i, k) =~= user);
    } else {
        lemma_scan_user_run(s, i + 1, k, name, user.push(s[i]), host);
        assert(user.push(s[i]) + s.subrange(i + 1, k) =~= user + s.subrange(i, k));
    }
}

/// Scanning the rest as the host part appends everything.
proof fn lemma_scan_host_rest(
    s: Seq<char>,
    i: int,
    name: Seq<char>,
    user: Seq<char>,
    host: Seq<char>,
)
    requires
        0 <= i <= s.len(),
    ensures
        prefix_scan(s, i, name, user, host, PrefixPhase::Host) == PrefixV::Nickname(
            name,
            user,
            host + s.subrange(i, s.len() as int),
        ),
    decreases s.len() - i,
{
    if i == s.len() {
        assert(host + s.subrange(i, s.len() as int) =~= host);
    } else {
        lemma_scan_host_rest(s, i + 1, name, user, host.push(s[i]));
        assert(host.push(s[i]) + s.subrange(i + 1, s.len() as int) =~= host + s.subrange(
            i,
            s.len() as int,
        ));
    }
}

/// The prefix round trip: a canonical prefix written out parses back
/// to itself.
pub proof fn lemma_prefix_roundtrip(p: PrefixV)
    requires
        canonical_prefix(p),
    ensures
        prefix_parse(prefix_text(p)) == p,
{
    let s = prefix_text(p);
    match p {
        PrefixV::ServerOrNick(n) => {
            assert(s == n);
            assert forall|j: int| 0 <= j < s.len() implies #[trigger] s[j] != '!' && s[j]
                != '@' by {
                if s[j] == '!' {
                    assert(contains_char(n, '!'));
                }
                if s[j] == '@' {
                    assert(contains_char(n, '@'));
                }
            }
            lemma_scan_name_run(s, 0, s.len() as int, Seq::empty(), Seq::empty(), Seq::empty());
            assert(Seq::<char>::empty() + s.subrange(0, s.len() as int) =~= n);
        },
        PrefixV::Nickname(n, u, h) => {
            if u.len() == 0 {
                assert(u =~= Seq::<char>::empty());
            }
            if h.len() == 0 {
                assert(h =~= Seq::<char>::empty());
            }
            let nlen = n.len() as int;
            assert forall|j: int| 0 <= j < nlen implies #[trigger] s[j] != '!' && s[j] != '@' by {
                assert(s[j] == n[j]);
                if n[j] == '!' {
                    assert(contains_char(n, '!'));
                }
                if n[j] == '@' {
                    assert(contains_char(n, '@'));
                }
            }
            lemma_scan_name_run(s, 0, nlen, Seq::empty(), Seq::empty(), Seq::empty());
            assert(s.subrange(0, nlen) =~= n);
            assert(Seq::<char>::empty() + n =~= n);
            if u.len() > 0 {
                assert(s[nlen] == '!');
                let after_bang = nlen + 1;
                let ulen = u.len() as int;
                assert forall|j: int| after_bang <= j < after_bang + ulen implies #[trigger] s[j]
                    != '@' by {
                    assert(s[j] == u[j - after_bang]);
                    if u[j - after_bang] == '@' {
                        assert(contains_char(u, '@'));
                    }
                }
                lemma_scan_user_run(s, after_bang, after_bang + ulen, n, Seq::empty(), Seq::empty());
                assert(s.subrange(after_bang, after_bang + ulen) =~= u);
                assert(Seq::<char>::empty() + u =~= u);
                if h.len() > 0 {
                    assert(s[after_bang + ulen] == '@');
                    lemma_scan_host_rest(s, after_bang + ulen + 1, n, u, Seq::empty());
                    assert(s.subrange(after_bang + ulen + 1, s.len() as int) =~= h);
                    assert(Seq::<char>::empty() + h =~= h);
                }
            } else {
                // no user part: the host part follows the at sign
                assert(h.len() > 0);
                assert(s[nlen] == '@');
                lemma_scan_host_rest(s, nlen + 1, n, Seq::empty(), Seq::empty());
                assert(s.subrange(nlen + 1, s.len() as int) =~= h);
                assert(Seq::<char>::empty() + h =~= h);
            }
        },
    }
}

impl Prefix {
    /// Reads a prefix from its raw token.
    pub fn new_from_str(s: &str) -> (r: Prefix)
        ensures
            r@ == prefix_parse(s@),
    {
        let chars = str_chars(s);
        let mut name: Vec<char> = Vec::new();
        let mut user: Vec<char> = Vec::new();
        let mut host: Vec<char> = Vec::new();
        let mut phase = PrefixPhase::Name;
        let mut i: usize = 0;
        while i < chars.len()
            invariant
                i <= chars@.len(),
                chars@ == s@,
                prefix_parse(s@) == prefix_scan(chars@, i as int, name@, user@, host@, phase),
            decreases chars@.len() - i,
        {
            let c = chars[i];
            if c == '!' && phase == PrefixPhase::Name {
                phase = PrefixPhase::User;
            } else if c == '@' && phase != PrefixPhase::Host {
                phase = PrefixPhase::Host;
            } else {
                match phase {
                    PrefixPhase::Name => name.push(c),
                    PrefixPhase::User => user.push(c),
                    PrefixPhase::Host => host.push(c),
                }
            }
            i = i + 1;
        }
        if phase == PrefixPhase::Name {
            Prefix::ServerOrNick(chars_str(&name))
        } else {
            Prefix::Nickname(chars_str(&name), chars_str(&user), chars_str(&host))
        }
    }

    /// Writes the prefix in its wire form.
    pub fn to_text(&self) -> (r: String)
        ensures
            r@ == prefix_text(self@),
    {
        match self {
            Prefix::ServerOrNick(n) => n.clone(),
            Prefix::Nickname(n, u, h) => {
                let mut out = n.clone();
                if u.as_str().unicode_len() > 0 {
                    push_char(&mut out, '!');
                    out.append(u.as_str());
                }
                if h.as_str().unicode_len() > 0 {
                    push_char(&mut out, '@');
                    out.append(h.as_str());
                }
                proof {
                    if u@.len() > 0 {
                        assert(n@ + seq!['!'] + u@ =~= n@.push('!') + u@);
                    }
                    if h@.len() > 0 {
                        if u@.len() > 0 {
                            assert((n@ + seq!['!'] + u@) + seq!['@'] + h@ =~= (n@.push('!')
                                + u@).push('@') + h@);
                        } else {
                            assert(n@ + seq!['@'] + h@ =~= n@.push('@') + h@);
                        }
                    }
                }
                out
            },
        }
    }
}

} // verus!
