//! Approved version triples of the versioning tool, and what one pipeline
//! file declares of it.

use crate::text::{
    append, chars_of, same_text, split, split_on, string_of, texts, trim, trimmed,
};
use vstd::prelude::*;

verus! {

/// An approved combination of setup, execute and specification versions.
#[derive(Debug, Clone, PartialEq)]
pub struct GitVersionState {
    pub setup_version: String,
    pub execute_version: String,
    pub spec_version: String,
}

/// What one pipeline file declares: the setup version with the
/// specification found after it, and the execute version.
#[derive(Debug)]
pub struct GitVersionImplementation {
    pub setup: Option<(String, Option<String>)>,
    pub execute: Option<String>,
    pub file_path: String,
}

/// The message for a text that does not hold three comma-separated parts.
pub open spec fn invalid_format_message() -> Seq<char> {
    "Invalid format. Expected 'setup:VERSION,execute:VERSION,spec:VERSION'"@
}

/// The message for a part that is not one key and one value around a colon.
pub open spec fn invalid_pair_message() -> Seq<char> {
    "Invalid key-value pair"@
}

/// The message for a part whose key is none of the three; it shows the key
/// as written.
pub open spec fn unknown_key_message(key: Seq<char>) -> Seq<char> {
    "Unknown key: "@ + key
}

/// The trimmed key of a part.
pub open spec fn part_key(part: Seq<char>) -> Seq<char> {
    trim(split_on(part, ':')[0])
}

/// The trimmed value of a part.
pub open spec fn part_value(part: Seq<char>) -> Seq<char> {
    trim(split_on(part, ':')[1])
}

/// What is wrong with a part, if anything.
pub open spec fn part_error(part: Seq<char>) -> Option<Seq<char>> {
    let kv = split_on(part, ':');
    if kv.len() != 2 {
        Some(invalid_pair_message())
    } else if part_key(part) != "setup"@ && part_key(part) != "execute"@ && part_key(part)
        != "spec"@ {
        Some(unknown_key_message(kv[0]))
    } else {
        None
    }
}

/// The value that three parts give to `key`: that of the last part with
/// that key.
pub open spec fn value_for(parts: Seq<Seq<char>>, key: Seq<char>) -> Option<Seq<char>> {
    if part_key(parts[2]) == key {
        Some(part_value(parts[2]))
    } else if part_key(parts[1]) == key {
        Some(part_value(parts[1]))
    } else if part_key(parts[0]) == key {
        Some(part_value(parts[0]))
    } else {
        None
    }
}

/// The meaning of a state text: the three versions as (setup, execute,
/// specification), or the message of the first thing wrong with it.
pub open spec fn parse_state(s: Seq<char>) -> Result<(Seq<char>, Seq<char>, Seq<char>), Seq<char>> {
    let parts = split_on(s, ',');
    if parts.len() != 3 {
        Err(invalid_format_message())
    } else if part_error(parts[0]) is Some {
        Err(part_error(parts[0])->0)
    } else if part_error(parts[1]) is Some {
        Err(part_error(parts[1])->0)
    } else if part_error(parts[2]) is Some {
        Err(part_error(parts[2])->0)
    } else if value_for(parts, "setup"@) is None {
        Err("Missing setup version"@)
    } else if value_for(parts, "execute"@) is None {
        Err("Missing execute version"@)
    } else if value_for(parts, "spec"@) is None {
        Err("Missing spec version"@)
    } else {
        Ok(
            (
                value_for(parts, "setup"@)->0,
                value_for(parts, "execute"@)->0,
                value_for(parts, "spec"@)->0,
            ),
        )
    }
}

/// Which of the three versions a part sets.
enum Slot {
    Setup,
    Execute,
    Spec,
}

impl Slot {
    spec fn key(self) -> Seq<char> {
        match self {
            Slot::Setup => "setup"@,
            Slot::Execute => "execute"@,
            Slot::Spec => "spec"@,
        }
    }
}

/// Reads one part into the slot it sets and its value.
fn read_part(part: &Vec<char>) -> (r: Result<(Slot, Vec<char>), String>)
    ensures
        match r {
            Ok((slot, value)) => part_error(part@) is None && part_key(part@) == slot.key()
                && value@ == part_value(part@),
            Err(msg) => part_error(part@) == Some(msg@),
        },
{
    let kv = split(part, ':');
    assert(kv@.len() == split_on(part@, ':').len());
    if kv.len() != 2 {
        return Err("Invalid key-value pair".to_owned());
    }
    assert(kv@[0]@ == split_on(part@, ':')[0]);
    assert(kv@[1]@ == split_on(part@, ':')[1]);
    let key = trimmed(&kv[0]);
    let value = trimmed(&kv[1]);
    if same_text(&key, &chars_of("setup")) {
        Ok((Slot::Setup, value))
    } else if same_text(&key, &chars_of("execute")) {
        Ok((Slot::Execute, value))
    } else if same_text(&key, &chars_of("spec")) {
        Ok((Slot::Spec, value))
    } else {
        let mut msg = chars_of("Unknown key: ");
        append(&mut msg, &kv[0]);
        Err(string_of(&msg))
    }
}

impl GitVersionState {
    /// The three versions as texts.
    pub open spec fn view(&self) -> (Seq<char>, Seq<char>, Seq<char>) {
        (self.setup_version@, self.execute_version@, self.spec_version@)
    }

    /// The state with the given versions.
    pub fn new(setup: &str, execute: &str, spec: &str) -> (r: Self)
        ensures
            r@ == (setup@, execute@, spec@),
    {
        GitVersionState {
            setup_version: setup.to_owned(),
            execute_version: execute.to_owned(),
            spec_version: spec.to_owned(),
        }
    }

    /// A copy of this state.
    pub fn duplicate(&self) -> (r: Self)
        ensures
            r == *self,
    {
        GitVersionState {
            setup_version: self.setup_version.clone(),
            execute_version: self.execute_version.clone(),
            spec_version: self.spec_version.clone(),
        }
    }

    /// Reads a state from `key:value` parts separated by commas, one each
    /// for `setup`, `execute` and `spec`, in any order.
    pub fn from_string(s: &str) -> (r: Result<Self, String>)
        ensures
            match r {
                Ok(state) => parse_state(s@) == Ok::<_, Seq<char>>(state@),
                Err(msg) => parse_state(s@) == Err::<(Seq<char>, Seq<char>, Seq<char>), _>(
                    msg@,
                ),
            },
    {
        let text = chars_of(s);
        let parts = split(&text, ',');
        assert(parts@.len() == split_on(s@, ',').len());
        if parts.len() != 3 {
            return Err(
                "Invalid format. Expected 'setup:VERSION,execute:VERSION,spec:VERSION'".to_owned(),
            );
        }
        assert(parts@[0]@ == split_on(s@, ',')[0]);
        assert(parts@[1]@ == split_on(s@, ',')[1]);
        assert(parts@[2]@ == split_on(s@, ',')[2]);
        let mut setup: Option<Vec<char>> = None;
        let mut execute: Option<Vec<char>> = None;
        let mut spec: Option<Vec<char>> = None;
        let mut i: usize = 0;
        while i < 3
            invariant
                i <= 3,
                parts@.len() == 3,
                texts(parts@) == split_on(s@, ','),
                forall|j: int| 0 <= j < i ==> part_error(#[trigger] parts@[j]@) is None,
                slot_after(parts@, i as int, "setup"@) == text_of(setup),
                slot_after(parts@, i as int, "execute"@) == text_of(execute),
                slot_after(parts@, i as int, "spec"@) == text_of(spec),
            decreases 3 - i,
        {
            proof {
                reveal_strlit("setup");
                reveal_strlit("execute");
                reveal_strlit("spec");
                assert("setup"@.len() == 5 && "execute"@.len() == 7 && "spec"@.len() == 4);
                assert(texts(parts@)[i as int] == parts@[i as int]@);
            }
            match read_part(&parts[i]) {
                Ok((Slot::Setup, value)) => {
                    setup = Some(value);
                },
                Ok((Slot::Execute, value)) => {
                    execute = Some(value);
                },
                Ok((Slot::Spec, value)) => {
                    spec = Some(value);
                },
                Err(msg) => {
                    return Err(msg);
                },
            }
            i = i + 1;
        }
        let ghost all = split_on(s@, ',');
        proof {
            assert(all[0] == parts@[0]@ && all[1] == parts@[1]@ && all[2] == parts@[2]@);
            assert(part_error(parts@[0]@) is None);
            assert(part_error(parts@[1]@) is None);
            assert(part_error(parts@[2]@) is None);
            reveal_with_fuel(slot_after, 4);
        }
        assert(value_for(all, "setup"@) == text_of(setup));
        assert(value_for(all, "execute"@) == text_of(execute));
        assert(value_for(all, "spec"@) == text_of(spec));
        match (setup, execute, spec) {
            (None, _, _) => Err("Missing setup version".to_owned()),
            (Some(_), None, _) => Err("Missing execute version".to_owned()),
            (Some(_), Some(_), None) => Err("Missing spec version".to_owned()),
            (Some(a), Some(b), Some(c)) => Ok(
                GitVersionState {
                    setup_version: string_of(&a),
                    execute_version: string_of(&b),
                    spec_version: string_of(&c),
                },
            ),
        }
    }
}

/// The text that an optional character vector holds.
spec fn text_of(v: Option<Vec<char>>) -> Option<Seq<char>> {
    match v {
        Some(t) => Some(t@),
        None => None,
    }
}

/// The value that the first `n` parts give to `key`.
spec fn slot_after(parts: Seq<Vec<char>>, n: int, key: Seq<char>) -> Option<Seq<char>>
    decreases n,
{
    if n <= 0 {
        None
    } else if part_key(parts[n - 1]@) == key {
        Some(part_value(parts[n - 1]@))
    } else {
        slot_after(parts, n - 1, key)
    }
}

} // verus!
