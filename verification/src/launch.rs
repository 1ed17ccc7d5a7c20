use vstd::prelude::*;

verus! {

/// The arguments that go to `java` before the user's own: `-jar` and the
/// generator JAR.
pub fn generator_arguments(jar: &str) -> (args: Vec<String>)
    ensures
        args@.len() == 2,
        args@[0]@ == "-jar"@,
        args@[1]@ == jar@,
{
    let mut args: Vec<String> = Vec::new();
    args.push(String::from_str("-jar"));
    args.push(String::from_str(jar));
    args
}

/// The arguments to forward to the generator: the command line without the
/// program's own name, all of them, unchanged and in order.
pub fn forwarded_arguments<A>(command_line: Vec<A>) -> (forwarded: Vec<A>)
    ensures
        command_line@.len() == 0 ==> forwarded@.len() == 0,
        command_line@.len() > 0 ==> forwarded@ == command_line@.drop_first(),
{
    let mut rest = command_line;
    if rest.len() > 0 {
        let _program = rest.remove(0);
        assert(rest@ =~= command_line@.drop_first());
    }
    rest
}

/// The exit code of this program once the generator has finished: the
/// generator's own, or 1 where it was ended without one (by a signal).
pub fn exit_code(status_code: Option<i32>) -> (code: i32)
    ensures
        code == match status_code {
            Some(c) => c,
            None => 1,
        },
{
    match status_code {
        Some(c) => c,
        None => 1,
    }
}

} // verus!
