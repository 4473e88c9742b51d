use vstd::prelude::*;

use crate::text::int_str;
use crate::text::str_eq;
use crate::user::UserForm;

verus! {

/// A maintenance action the command interpreter schedules; the caller
/// performs the store work afterwards.
#[derive(Clone, Copy, PartialEq, Eq, Structural, Debug)]
pub enum DbAction {
    /// Insert the fixed set of test user accounts.
    InsertTestUsers,
}

/// The text holds two adjacent dashes somewhere, marking it a command.
pub open spec fn has_dashdash(s: Seq<char>) -> bool {
    exists|i: int| 0 <= i && i + 1 < s.len() && #[trigger] s[i] == '-' && s[i + 1] == '-'
}

fn has_dashdash_exec(s: &str) -> (r: bool)
    ensures
        r == has_dashdash(s@),
{
    let n = s.unicode_len();
    if n < 2 {
        return false;
    }
    let mut i: usize = 0;
    while i + 1 < n
        invariant
            i + 1 <= n,
            n == s@.len(),
            forall|k: int| 0 <= k && k + 1 < i + 1 ==> !(#[trigger] s@[k] == '-' && s@[k + 1] == '-'),
        decreases n - i,
    {
        if s.get_char(i) == '-' && s.get_char(i + 1) == '-' {
            return true;
        }
        i += 1;
    }
    false
}

/// The views of a list of argument strings.
pub open spec fn strs_view(args: Seq<String>) -> Seq<Seq<char>> {
    args.map_values(|s: String| s@)
}

/// What the interpreter does with the arguments from position `k` on,
/// given the command flag currently in force.
pub open spec fn interp_from(args: Seq<Seq<char>>, k: int, cmd: Seq<char>) -> Result<
    Seq<DbAction>,
    Seq<char>,
>
    decreases args.len() - k,
{
    if k < 0 || k >= args.len() {
        Ok(Seq::empty())
    } else if has_dashdash(args[k]) {
        interp_from(args, k + 1, args[k])
    } else if cmd == "--insert"@ {
        if args[k] == "users"@ {
            match interp_from(args, k + 1, cmd) {
                Ok(rest) => Ok(seq![DbAction::InsertTestUsers] + rest),
                Err(e) => Err(e),
            }
        } else {
            Err("Unknown arg "@ + args[k] + " of command db --insert"@)
        }
    } else {
        Err("Unknown command "@ + args[k] + " of db module"@)
    }
}

/// What the interpreter does with a whole argument list.
pub open spec fn interpret_spec(args: Seq<Seq<char>>) -> Result<Seq<DbAction>, Seq<char>> {
    interp_from(args, 0, "--"@)
}

/// Turns one argument of the insert command into its action.
pub fn get_insert_fn(arg: &str) -> (r: Result<DbAction, String>)
    ensures
        match r {
            Ok(a) => arg@ == "users"@ && a == DbAction::InsertTestUsers,
            Err(e) => arg@ != "users"@ && e@ == "Unknown arg "@ + arg@
                + " of command db --insert"@,
        },
{
    if str_eq(arg, "users") {
        Ok(DbAction::InsertTestUsers)
    } else {
        let mut e = String::from_str("Unknown arg ");
        e.append(arg);
        e.append(" of command db --insert");
        proof {
            assert(e@ =~= "Unknown arg "@ + arg@ + " of command db --insert"@);
        }
        Err(e)
    }
}

/// Interprets the maintenance command line: `--insert users` schedules the
/// test-user insertion; anything else is refused with a message. The
/// returned actions are what the caller then executes against the store.
#[verifier::loop_isolation(false)]
pub fn interpret(args: Vec<String>) -> (r: Result<Vec<DbAction>, String>)
    ensures
        match r {
            Ok(v) => interpret_spec(strs_view(args@)) == Ok::<Seq<DbAction>, Seq<char>>(v@),
            Err(e) => interpret_spec(strs_view(args@)) == Err::<Seq<DbAction>, Seq<char>>(e@),
        },
{
    let ghost views = strs_view(args@);
    let mut functors: Vec<DbAction> = Vec::new();
    let mut cmd = String::from_str("--");
    let mut i: usize = 0;
    while i < args.len()
        invariant
            i <= args@.len(),
            interpret_spec(views) == (match interp_from(views, i as int, cmd@) {
                Ok(rest) => Ok::<Seq<DbAction>, Seq<char>>(functors@ + rest),
                Err(e) => Err::<Seq<DbAction>, Seq<char>>(e),
            }),
        decreases args@.len() - i,
    {
        let arg = &args[i];
        let ghost prev_cmd = cmd@;
        proof {
            assert(views[i as int] == arg@);
        }
        if has_dashdash_exec(arg.as_str()) {
            cmd = arg.clone();
            proof {
                assert(cmd@ == views[i as int]);
                assert(interp_from(views, i as int, prev_cmd) == interp_from(
                    views,
                    i as int + 1,
                    cmd@,
                ));
            }
        } else if str_eq(cmd.as_str(), "--insert") {
            match get_insert_fn(arg.as_str()) {
                Ok(a) => {
                    let ghost prev_functors = functors@;
                    functors.push(a);
                    proof {
                        assert(interp_from(views, i as int, cmd@) == (
                        match interp_from(views, i as int + 1, cmd@) {
                            Ok(rest) => Ok::<Seq<DbAction>, Seq<char>>(
                                seq![DbAction::InsertTestUsers] + rest,
                            ),
                            Err(e) => Err::<Seq<DbAction>, Seq<char>>(e),
                        }));
                        if interp_from(views, i as int + 1, cmd@) is Ok {
                            assert(functors@ + interp_from(
                                views,
                                i as int + 1,
                                cmd@,
                            )->Ok_0 =~= prev_functors + (seq![DbAction::InsertTestUsers]
                                + interp_from(views, i as int + 1, cmd@)->Ok_0));
                        }
                    }
                },
                Err(e) => {
                    return Err(e);
                },
            }
        } else {
            let mut e = String::from_str("Unknown command ");
            e.append(arg.as_str());
            e.append(" of db module");
            proof {
                assert(e@ =~= "Unknown command "@ + arg@ + " of db module"@);
            }
            return Err(e);
        }
        i += 1;
    }
    proof {
        if interpret_spec(views) is Ok {
            assert(functors@ + Seq::<DbAction>::empty() =~= functors@);
        }
    }
    Ok(functors)
}

/// The fixed set of test user account forms: ten accounts with numbered
/// addresses and nicknames, all sharing the supplied password hash.
pub fn insert_test_users(pass_hash: &str) -> (r: Vec<UserForm>)
    ensures
        r@.len() == 10,
        forall|i: int|
            0 <= i < 10 ==> {
                let f = #[trigger] r@[i];
                &&& f.email@ == int_str(i) + "@spikegames.eu"@
                &&& f.nickname@ == "Spike"@ + int_str(i)
                &&& f.steam_id@ == int_str(i)
                &&& f.first_name@ == "Spike"@
                &&& f.last_name@ == int_str(i)
                &&& f.hash@ == pass_hash@
                &&& f.birth_date == 0
            },
{
    let mut forms: Vec<UserForm> = Vec::new();
    let mut i: i32 = 0;
    while i < 10
        invariant
            0 <= i <= 10,
            forms@.len() == i,
            forall|k: int|
                0 <= k < i ==> {
                    let f = #[trigger] forms@[k];
                    &&& f.email@ == int_str(k) + "@spikegames.eu"@
                    &&& f.nickname@ == "Spike"@ + int_str(k)
                    &&& f.steam_id@ == int_str(k)
                    &&& f.first_name@ == "Spike"@
                    &&& f.last_name@ == int_str(k)
                    &&& f.hash@ == pass_hash@
                    &&& f.birth_date == 0
                },
        decreases 10 - i,
    {
        let num = crate::text::i32_to_string(i);
        let mut email = num.clone();
        email.append("@spikegames.eu");
        let mut nickname = String::from_str("Spike");
        nickname.append(num.as_str());
        forms.push(
            UserForm {
                email,
                nickname,
                steam_id: num.clone(),
                first_name: String::from_str("Spike"),
                last_name: num,
                hash: String::from_str(pass_hash),
                birth_date: 0,
            },
        );
        i += 1;
    }
    forms
}

} // verus!
