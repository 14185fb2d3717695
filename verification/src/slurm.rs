//! The two renderings of a resolved profile: the argument list of an
//! interactive run, and the text of a submission script.

use crate::profile::{Memory, Profile, ProfileView};
use crate::text::{decimal, join, push_decimal, push_joined, views};
use vstd::prelude::*;
use vstd::string::*;

verus! {

/// A profile that cannot be rendered: an interactive run without a command.
#[derive(Debug, Clone, Copy, PartialEq, Eq, Structural)]
pub struct RenderError;

/// The cores asked for: one where none is given, and never fewer than one.
pub open spec fn effective_cpu(p: ProfileView) -> u8 {
    match p.cpu {
        Some(n) => if n < 1 {
            1
        } else {
            n
        },
        None => 1,
    }
}

/// The memory asked for: ten megabytes where none is given.
pub open spec fn effective_mem(p: ProfileView) -> Memory {
    match p.mem {
        Some(m) => m,
        None => Memory::MB(10),
    }
}

/// The GPUs asked for: none where none is given.
pub open spec fn effective_gpu(p: ProfileView) -> u8 {
    match p.gpu {
        Some(n) => n,
        None => 0,
    }
}

/// The partition flag, where a partition is given.
pub open spec fn partition_flag(p: ProfileView) -> Seq<Seq<char>> {
    match p.partition {
        Some(name) => seq!["--partition="@ + name],
        None => Seq::empty(),
    }
}

/// The node-list flag, where nodes are given: their names with commas between.
pub open spec fn nodelist_flag(p: ProfileView) -> Seq<Seq<char>> {
    if p.nodes.len() > 0 {
        seq!["--nodelist="@ + join(p.nodes, ","@)]
    } else {
        Seq::empty()
    }
}

/// The scheduler flags of a profile, in the order in which both renderings
/// give them.
pub open spec fn flags(p: ProfileView) -> Seq<Seq<char>> {
    partition_flag(p) + nodelist_flag(p) + seq![
        "--nodes=1"@,
        "--cpus-per-task="@ + decimal(effective_cpu(p) as nat),
        "--mem="@ + effective_mem(p).text(),
        "--gres=gpu:"@ + decimal(effective_gpu(p) as nat),
    ]
}

/// The arguments of an interactive run: the flags, the interactive-mode
/// flag, then the command as it is.
pub open spec fn arguments(p: ProfileView) -> Seq<Seq<char>> {
    flags(p) + seq!["--pty"@] + p.command
}

/// An interactive run needs a command; with one, its arguments are fixed.
pub open spec fn srun_outcome(p: ProfileView) -> Result<Seq<Seq<char>>, RenderError> {
    if p.command.len() == 0 {
        Err(RenderError)
    } else {
        Ok(arguments(p))
    }
}

/// One directive line for each flag.
pub open spec fn directives(flags: Seq<Seq<char>>) -> Seq<char>
    decreases flags.len(),
{
    if flags.len() == 0 {
        Seq::empty()
    } else {
        directives(flags.drop_last()) + "#SBATCH "@ + flags.last() + "\n"@
    }
}

/// The head of a script: the interpreter line, an empty line, the directives.
pub open spec fn script_header(p: ProfileView) -> Seq<char> {
    "#!/bin/bash\n\n"@ + directives(flags(p))
}

/// The payload of a script: an empty line and the command on one line, or
/// nothing at all where there is no command.
pub open spec fn script_payload(p: ProfileView) -> Seq<char> {
    if p.command.len() > 0 {
        "\n"@ + join(p.command, " "@) + "\n"@
    } else {
        Seq::empty()
    }
}

/// The whole script.
pub open spec fn script_text(p: ProfileView) -> Seq<char> {
    script_header(p) + script_payload(p)
}

/// Appends one string to a list.
fn push_text(list: &mut Vec<String>, s: String)
    ensures
        views(final(list)@) == views(old(list)@).push(s@),
{
    list.push(s);
    assert(views(list@) =~= views(old(list)@).push(s@));
}

/// The scheduler flags of a profile.
pub fn render_flags(profile: &Profile) -> (r: Vec<String>)
    ensures
        views(r@) == flags(profile@),
{
    let mut list: Vec<String> = Vec::new();
    match &profile.partition {
        Some(name) => {
            let mut flag = String::from_str("--partition=");
            flag.append(name.as_str());
            push_text(&mut list, flag);
        },
        None => {},
    }
    if profile.nodes.len() > 0 {
        let mut flag = String::from_str("--nodelist=");
        push_joined(&mut flag, &profile.nodes, ",");
        push_text(&mut list, flag);
    }
    assert(views(list@) =~= partition_flag(profile@) + nodelist_flag(profile@));
    push_text(&mut list, String::from_str("--nodes=1"));

    let cpu: u8 = match profile.cpu {
        Some(n) => if n < 1 {
            1
        } else {
            n
        },
        None => 1,
    };
    let mut flag = String::from_str("--cpus-per-task=");
    push_decimal(&mut flag, cpu as u16);
    push_text(&mut list, flag);

    let mem = match profile.mem {
        Some(m) => m,
        None => Memory::MB(10),
    };
    let mut flag = String::from_str("--mem=");
    mem.write_to(&mut flag);
    push_text(&mut list, flag);

    let gpu: u8 = match profile.gpu {
        Some(n) => n,
        None => 0,
    };
    let mut flag = String::from_str("--gres=gpu:");
    push_decimal(&mut flag, gpu as u16);
    push_text(&mut list, flag);
    assert(views(list@) =~= flags(profile@));
    list
}

/// The arguments of an interactive run of the profile's command. A profile
/// without a command is refused.
pub fn srun(profile: &Profile) -> (r: Result<Vec<String>, RenderError>)
    ensures
        r is Err <==> profile@.command.len() == 0,
        match r {
            Ok(list) => srun_outcome(profile@) == Ok::<Seq<Seq<char>>, RenderError>(views(list@)),
            Err(e) => srun_outcome(profile@) == Err::<Seq<Seq<char>>, RenderError>(e),
        },
{
    if profile.command.len() == 0 {
        return Err(RenderError);
    }
    let mut list = render_flags(profile);
    push_text(&mut list, String::from_str("--pty"));
    let ghost head = views(list@);
    let mut i: usize = 0;
    assert(head =~= flags(profile@) + seq!["--pty"@]);
    assert(views(list@) =~= head + views(profile.command@).take(0));
    while i < profile.command.len()
        invariant
            i <= profile.command.len(),
            profile.command.len() > 0,
            head == flags(profile@) + seq!["--pty"@],
            views(list@) == head + views(profile.command@).take(i as int),
        decreases profile.command.len() - i,
    {
        push_text(&mut list, profile.command[i].clone());
        assert(views(profile.command@).take(i + 1) =~= views(profile.command@).take(i as int).push(
            profile.command@[i as int]@,
        ));
        i += 1;
    }
    assert(views(profile.command@).take(i as int) =~= profile@.command);
    Ok(list)
}

/// The submission script of the profile. A profile without a command gives
/// a script that ends with its directives.
pub fn sbatch(profile: &Profile) -> (r: Result<String, RenderError>)
    ensures
        r is Ok,
        r->Ok_0@ == script_text(profile@),
{
    let list = render_flags(profile);
    let mut script = String::from_str("#!/bin/bash\n\n");
    let ghost all = views(list@);
    let mut i: usize = 0;
    while i < list.len()
        invariant
            i <= list.len(),
            all == views(list@),
            script@ == "#!/bin/bash\n\n"@ + directives(all.take(i as int)),
        decreases list.len() - i,
    {
        proof {
            assert(all.take(i + 1).drop_last() =~= all.take(i as int));
            assert(all.take(i + 1).last() == list@[i as int]@);
        }
        script.append("#SBATCH ");
        script.append(list[i].as_str());
        script.append("\n");
        i += 1;
    }
    assert(all.take(i as int) =~= all);
    if profile.command.len() > 0 {
        script.append("\n");
        push_joined(&mut script, &profile.command, " ");
        script.append("\n");
    }
    assert(script@ =~= script_text(profile@));
    Ok(script)
}

/// A profile without a command is refused as an interactive run, while its
/// script is just the header.
pub proof fn lemma_empty_command(p: ProfileView)
    requires
        p.command.len() == 0,
    ensures
        srun_outcome(p) == Err::<Seq<Seq<char>>, RenderError>(RenderError),
        script_text(p) == script_header(p),
{
    assert(script_text(p) =~= script_header(p));
}

/// However many cores a profile names, the cores flag asks for at least one.
pub proof fn lemma_cpu_floor(p: ProfileView)
    ensures
        effective_cpu(p) >= 1,
        p.cpu == Some(0u8) ==> effective_cpu(p) == 1,
        flags(p)[flags(p).len() - 3] == "--cpus-per-task="@ + decimal(effective_cpu(p) as nat),
{
}

} // verus!
