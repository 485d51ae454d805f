use vstd::prelude::*;

use crate::text::push_char;

verus! {

/// The fields of a text separated by colons, in order; a text with no colon is one field.
pub open spec fn split_fields(s: Seq<char>) -> Seq<Seq<char>>
    decreases s.len(),
{
    if s.len() == 0 {
        seq![Seq::<char>::empty()]
    } else {
        let p = split_fields(s.drop_last());
        if s.last() == ':' {
            p.push(Seq::<char>::empty())
        } else {
            p.update(p.len() - 1, p.last().push(s.last()))
        }
    }
}

/// The AppRole mount used when the credential names none.
pub open spec fn default_approle_mount() -> Seq<char> {
    seq!['a', 'p', 'p', 'r', 'o', 'l', 'e']
}

/// How the client authenticates to the secret store.
#[derive(Debug, PartialEq, Eq)]
pub enum Credential {
    /// A bare token.
    Token(String),
    /// A role and secret id, exchanged for a token at an AppRole mount.
    AppRole { role_id: String, secret_id: String, mount: String },
}

proof fn lemma_split_nonempty(s: Seq<char>)
    ensures
        split_fields(s).len() >= 1,
    decreases s.len(),
{
    if s.len() > 0 {
        lemma_split_nonempty(s.drop_last());
    }
}

/// Splits `s` at every colon.
fn split_colons(s: &str) -> (r: Vec<String>)
    ensures
        r@.len() == split_fields(s@).len(),
        forall|j: int| 0 <= j < r@.len() ==> #[trigger] r@[j]@ == split_fields(s@)[j],
{
    let n = s.unicode_len();
    let mut fields: Vec<String> = Vec::new();
    let mut cur = String::new();
    let mut i: usize = 0;
    assert(s@.take(0) =~= Seq::<char>::empty());
    while i < n
        invariant
            n == s@.len(),
            i <= n,
            fields@.len() + 1 == split_fields(s@.take(i as int)).len(),
            forall|j: int| 0 <= j < fields@.len() ==> #[trigger] fields@[j]@ == split_fields(s@.take(i as int))[j],
            cur@ == split_fields(s@.take(i as int)).last(),
        decreases n - i,
    {
        let c = s.get_char(i);
        let ghost before = split_fields(s@.take(i as int));
        proof {
            lemma_split_nonempty(s@.take(i as int));
        }
        assert(s@.take(i + 1).drop_last() =~= s@.take(i as int));
        assert(s@.take(i + 1).last() == c);
        if c == ':' {
            fields.push(cur);
            cur = String::new();
        } else {
            push_char(&mut cur, c);
        }
        i = i + 1;
    }
    assert(s@.take(n as int) =~= s@);
    fields.push(cur);
    fields
}

/// Reads a credential: a text with no colon is a token; otherwise the first two
/// colon-separated fields are the role id and the secret id, and a third field, when there
/// are exactly three, is the AppRole mount (else `approle`).
pub fn parse_credential(s: &str) -> (c: Credential)
    ensures
        match c {
            Credential::Token(t) => split_fields(s@).len() == 1 && t@ == s@,
            Credential::AppRole { role_id, secret_id, mount } => {
                let f = split_fields(s@);
                &&& f.len() >= 2
                &&& role_id@ == f[0]
                &&& secret_id@ == f[1]
                &&& mount@ == if f.len() == 3 {
                    f[2]
                } else {
                    default_approle_mount()
                }
            },
        },
{
    proof {
        lemma_split_nonempty(s@);
        reveal_strlit("approle");
    }
    let fields = split_colons(s);
    if fields.len() == 1 {
        return Credential::Token(s.to_owned());
    }
    let mount = if fields.len() == 3 {
        fields[2].clone()
    } else {
        assert("approle"@ =~= default_approle_mount());
        "approle".to_owned()
    };
    Credential::AppRole { role_id: fields[0].clone(), secret_id: fields[1].clone(), mount }
}

} // verus!
