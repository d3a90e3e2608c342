use vstd::prelude::*;

use crate::error::Error;

verus! {

/// The protocol version this crate speaks.
pub const VERSION: &'static str = "2.0";

/// The index of the first `c` in `s`, or `s.len()` when there is none.
pub open spec fn first_index(s: Seq<char>, c: char) -> int
    decreases s.len(),
{
    if s.len() == 0 {
        0
    } else if s[0] == c {
        0
    } else {
        1 + first_index(s.drop_first(), c)
    }
}

proof fn lemma_first_index(s: Seq<char>, c: char)
    ensures
        0 <= first_index(s, c) <= s.len(),
        first_index(s, c) < s.len() ==> s[first_index(s, c)] == c,
        forall|k: int| 0 <= k < first_index(s, c) ==> s[k] != c,
    decreases s.len(),
{
    if s.len() > 0 && s[0] != c {
        lemma_first_index(s.drop_first(), c);
        assert forall|k: int| 0 <= k < first_index(s, c) implies s[k] != c by {
            if k > 0 {
                assert(s[k] == s.drop_first()[k - 1]);
            }
        }
    }
}

/// The parts of an identification string `SSH-<protoversion>-<softwareversion>[ <comments>]`:
/// the comments follow the first space, the software version runs from the
/// second `-` to that space, and both versions must be non-empty.
pub open spec fn parse_id(s: Seq<char>) -> Option<(Seq<char>, Seq<char>, Option<Seq<char>>)> {
    let sp = first_index(s, ' ');
    let id = s.subrange(0, sp);
    let comments = if sp < s.len() {
        Some(s.subrange(sp + 1, s.len() as int))
    } else {
        None
    };
    let rest = id.subrange(4, id.len() as int);
    let dash = first_index(rest, '-');
    if id.len() >= 4 && id.subrange(0, 4) == seq!['S', 'S', 'H', '-'] && dash < rest.len() && dash
        > 0 && dash + 1 < rest.len() {
        Some((rest.subrange(0, dash), rest.subrange(dash + 1, rest.len() as int), comments))
    } else {
        None
    }
}

/// The text of an identification string, without the line ending.
pub open spec fn id_text(proto: Seq<char>, software: Seq<char>, comments: Option<Seq<char>>) -> Seq<
    char,
> {
    let base = seq!['S', 'S', 'H', '-'] + proto + seq!['-'] + software;
    match comments {
        Some(c) => base + seq![' '] + c,
        None => base,
    }
}

/// The SSH identification string as defined in the SSH protocol.
///
/// The format must match the following pattern:
/// `SSH-<protoversion>-<softwareversion>[ <comments>]`.
///
/// see <https://datatracker.ietf.org/doc/html/rfc4253#section-4.2>.
#[derive(Debug)]
pub struct Id {
    /// The SSH's protocol version, should be `2.0` in our case.
    pub protoversion: String,
    /// A string identifying the software curently used, in example `billsSSH_3.6.3q3`.
    pub softwareversion: String,
    /// Optional comments with additionnal informations about the software.
    pub comments: Option<String>,
}

impl Id {
    /// Convenience method to create an `SSH-2.0` identifier string.
    pub fn v2(softwareversion: &str, comments: Option<&str>) -> (r: Id)
        ensures
            r.protoversion@ == VERSION@,
            r.softwareversion@ == softwareversion@,
            r.comments is Some <==> comments is Some,
            r.comments is Some ==> r.comments->Some_0@ == comments->Some_0@,
    {
        Id {
            protoversion: VERSION.to_owned(),
            softwareversion: softwareversion.to_owned(),
            comments: match comments {
                Some(c) => Some(c.to_owned()),
                None => None,
            },
        }
    }

    /// Parse an identification string, without its line ending.
    pub fn from_str(s: &str) -> (r: Result<Id, Error>)
        ensures
            match parse_id(s@) {
                Some((proto, software, comments)) => {
                    &&& r is Ok
                    &&& r->Ok_0.protoversion@ == proto
                    &&& r->Ok_0.softwareversion@ == software
                    &&& r->Ok_0.comments is Some <==> comments is Some
                    &&& r->Ok_0.comments is Some ==> r->Ok_0.comments->Some_0@
                        == comments->Some_0
                },
                None => r is Err && r->Err_0 is BadIdentifer && r->Err_0->BadIdentifer_0@ == s@,
            },
    {
        let n = s.unicode_len();
        let mut sp: usize = 0;
        while sp < n && s.get_char(sp) != ' '
            invariant
                n == s@.len(),
                sp <= n,
                forall|k: int| 0 <= k < sp ==> s@[k] != ' ',
            decreases n - sp,
        {
            sp = sp + 1;
        }
        proof {
            lemma_first_index(s@, ' ');
        }
        assert(sp == first_index(s@, ' '));
        let mut ok = sp >= 4 && s.get_char(0) == 'S' && s.get_char(1) == 'S' && s.get_char(2) == 'H'
            && s.get_char(3) == '-';
        let ghost prefix_ok = ok;
        let mut dash: usize = 4;
        if ok {
            while dash < sp && s.get_char(dash) != '-'
                invariant
                    n == s@.len(),
                    4 <= dash <= sp <= n,
                    forall|k: int| 4 <= k < dash ==> s@[k] != '-',
                decreases sp - dash,
            {
                dash = dash + 1;
            }
            if dash < sp {
                assert(s@[dash as int] == '-');
            }
            ok = dash < sp && dash > 4 && dash + 1 < sp;
        }
        let ghost id = s@.subrange(0, sp as int);
        let ghost rest = id.subrange(4, id.len() as int);
        proof {
            if sp >= 4 {
                assert(id.subrange(0, 4) =~= seq![s@[0], s@[1], s@[2], s@[3]]);
            }
            if prefix_ok {
                lemma_first_index(rest, '-');
                assert forall|k: int| 0 <= k < dash - 4 implies rest[k] != '-' by {
                    assert(rest[k] == s@[k + 4]);
                }
                if dash < sp {
                    assert(rest[dash - 4] == s@[dash as int]);
                }
                assert(first_index(rest, '-') == dash - 4);
            }
        }
        if !ok {
            return Err(Error::BadIdentifer(s.to_owned()));
        }
        let proto = s.substring_char(4, dash).to_owned();
        let software = s.substring_char(dash + 1, sp).to_owned();
        let comments = if sp < n {
            Some(s.substring_char(sp + 1, n).to_owned())
        } else {
            None
        };
        assert(rest.subrange(0, dash - 4) =~= s@.subrange(4, dash as int));
        assert(rest.subrange(dash - 3, rest.len() as int) =~= s@.subrange(dash + 1, sp as int));
        Ok(Id { protoversion: proto, softwareversion: software, comments })
    }

    /// The identification string, without its line ending.
    pub fn to_string(&self) -> (r: String)
        ensures
            r@ == id_text(
                self.protoversion@,
                self.softwareversion@,
                match self.comments {
                    Some(c) => Some(c@),
                    None => None,
                },
            ),
    {
        let mut r = "SSH-".to_owned();
        proof {
            reveal_strlit("SSH-");
        }
        r.append(self.protoversion.as_str());
        r.append("-");
        proof {
            reveal_strlit("-");
        }
        r.append(self.softwareversion.as_str());
        match &self.comments {
            Some(c) => {
                r.append(" ");
                proof {
                    reveal_strlit(" ");
                }
                r.append(c.as_str());
            },
            None => {},
        }
        assert(r@ =~= id_text(
            self.protoversion@,
            self.softwareversion@,
            match self.comments {
                Some(c) => Some(c@),
                None => None,
            },
        ));
        r
    }
}

} // verus!
