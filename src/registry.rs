use vstd::prelude::*;
use crate::gating::Gating;

verus! {

/// A command, with the names it answers to, its checks and its sub-commands.
pub struct CommandDescriptor {
    pub name: String,
    pub aliases: Vec<String>,
    pub description: String,
    pub gating: Gating,
    pub subcommands: Vec<CommandDescriptor>,
}

/// Commands that share a set of checks.
pub struct Group {
    pub name: String,
    pub gating: Gating,
    pub commands: Vec<CommandDescriptor>,
}

/// The top-level groups, each command name or alias standing once among all
/// of their commands.
pub struct Registry {
    pub groups: Vec<Group>,
}

/// Registration refused: a name or alias is already taken in its scope.
#[derive(Clone, Copy, Debug, PartialEq, Eq, Structural)]
pub enum RegistryError {
    DuplicateName,
}

/// `c` answers to `seg`, by its name or by one of its aliases.
pub open spec fn answers_to(c: CommandDescriptor, seg: Seq<char>) -> bool {
    c.name@ == seg || c.aliases.deep_view().contains(seg)
}

/// `b` answers to a name or an alias of `a`.
pub open spec fn shares_name(a: CommandDescriptor, b: CommandDescriptor) -> bool {
    answers_to(b, a.name@) || exists|k: int| 0 <= k < a.aliases@.len() && answers_to(b, #[trigger] a.aliases@[k]@)
}

/// No two commands of a scope answer to a common name.
pub open spec fn scope_unique(cmds: Seq<CommandDescriptor>) -> bool {
    forall|i: int, j: int|
        0 <= i < cmds.len() && 0 <= j < cmds.len() && i != j ==> !shares_name(#[trigger] cmds[i], #[trigger] cmds[j])
}

/// No two top-level commands, in one group or in two, answer to a common name.
pub open spec fn groups_unique(groups: Seq<Group>) -> bool {
    forall|g1: int, c1: int, g2: int, c2: int|
        0 <= g1 < groups.len() && 0 <= g2 < groups.len() && 0 <= c1 < groups[g1].commands@.len() && 0
            <= c2 < groups[g2].commands@.len() && (g1 != g2 || c1 != c2) ==> !shares_name(
            #[trigger] groups[g1].commands@[c1],
            #[trigger] groups[g2].commands@[c2],
        )
}

/// The first command of `cmds`, from index `j` on, that answers to `seg`.
pub open spec fn find_in(cmds: Seq<CommandDescriptor>, seg: Seq<char>, j: int) -> Option<int>
    decreases cmds.len() - j,
{
    if j < 0 || j >= cmds.len() {
        None
    } else if answers_to(cmds[j], seg) {
        Some(j)
    } else {
        find_in(cmds, seg, j + 1)
    }
}

/// The first top-level command, from group `g` on, that answers to `seg`.
pub open spec fn find_top(groups: Seq<Group>, seg: Seq<char>, g: int) -> Option<(int, int)>
    decreases groups.len() - g,
{
    if g < 0 || g >= groups.len() {
        None
    } else {
        match find_in(groups[g].commands@, seg, 0) {
            Some(j) => Some((g, j)),
            None => find_top(groups, seg, g + 1),
        }
    }
}

/// Walks down from `c` through the sub-commands named by `path[i..]`, as far as
/// they match. Gives the deepest command reached, how many segments were
/// consumed, and the names of the commands passed, joined by spaces.
pub open spec fn descend(c: CommandDescriptor, path: Seq<Seq<char>>, i: int, qualified: Seq<char>) -> (
    CommandDescriptor,
    int,
    Seq<char>,
)
    decreases path.len() - i,
{
    if 0 <= i < path.len() {
        match find_in(c.subcommands@, path[i], 0) {
            Some(j) => descend(
                c.subcommands@[j],
                path,
                i + 1,
                qualified + seq![' '] + c.subcommands@[j].name@,
            ),
            None => (c, i, qualified),
        }
    } else {
        (c, i, qualified)
    }
}

/// A resolved command: its group, the command, how many path segments named
/// it, and its fully-qualified name.
pub struct Resolution<'a> {
    pub group: &'a Group,
    pub command: &'a CommandDescriptor,
    pub consumed: usize,
    pub qualified: String,
}

pub open spec fn resolve_spec(groups: Seq<Group>, path: Seq<Seq<char>>) -> Option<
    (Group, CommandDescriptor, int, Seq<char>),
> {
    if path.len() == 0 {
        None
    } else {
        match find_top(groups, path[0], 0) {
            None => None,
            Some((g, j)) => {
                let top = groups[g].commands@[j];
                let (c, n, q) = descend(top, path, 1, top.name@);
                Some((groups[g], c, n, q))
            },
        }
    }
}

/// Two top-level commands that answer to a common alias cannot both be
/// registered: the registry is refused the group that brings the second.
pub proof fn lemma_shared_alias_blocks_registration(
    groups: Seq<Group>,
    group: Group,
    g: int,
    c: int,
    j: int,
    alias: Seq<char>,
)
    requires
        0 <= g < groups.len(),
        0 <= c < groups[g].commands@.len(),
        0 <= j < group.commands@.len(),
        groups[g].commands@[c].aliases.deep_view().contains(alias),
        group.commands@[j].aliases.deep_view().contains(alias),
    ensures
        !groups_unique(groups.push(group)),
{
    let all = groups.push(group);
    let a = group.commands@[j];
    let b = groups[g].commands@[c];
    let k = choose|k: int| 0 <= k < a.aliases.deep_view().len() && a.aliases.deep_view()[k] == alias;
    assert(a.aliases@[k]@ == alias);
    assert(answers_to(b, a.aliases@[k]@));
    assert(shares_name(a, b));
    assert(all[groups.len() as int] == group);
    assert(all[g] == groups[g]);
}

fn answers_to_exec(c: &CommandDescriptor, seg: &String) -> (r: bool)
    ensures
        r == answers_to(*c, seg@),
{
    if c.name == *seg {
        return true;
    }
    let mut k: usize = 0;
    while k < c.aliases.len()
        invariant
            k <= c.aliases@.len(),
            forall|t: int| 0 <= t < k ==> c.aliases@[t]@ != seg@,
        decreases c.aliases@.len() - k,
    {
        if c.aliases[k] == *seg {
            assert(c.aliases.deep_view()[k as int] == seg@);
            return true;
        }
        k = k + 1;
    }
    proof {
        if c.aliases.deep_view().contains(seg@) {
            let t = choose|t: int| 0 <= t < c.aliases.deep_view().len() && c.aliases.deep_view()[t] == seg@;
            assert(c.aliases@[t]@ == seg@);
        }
    }
    false
}

fn shares_name_exec(a: &CommandDescriptor, b: &CommandDescriptor) -> (r: bool)
    ensures
        r == shares_name(*a, *b),
{
    if answers_to_exec(b, &a.name) {
        return true;
    }
    let mut k: usize = 0;
    while k < a.aliases.len()
        invariant
            k <= a.aliases@.len(),
            forall|t: int| 0 <= t < k ==> !answers_to(*b, #[trigger] a.aliases@[t]@),
        decreases a.aliases@.len() - k,
    {
        if answers_to_exec(b, &a.aliases[k]) {
            return true;
        }
        k = k + 1;
    }
    false
}

fn find_in_exec(cmds: &Vec<CommandDescriptor>, seg: &String) -> (r: Option<usize>)
    ensures
        match r {
            Some(j) => find_in(cmds@, seg@, 0) == Some(j as int) && j < cmds@.len(),
            None => find_in(cmds@, seg@, 0) == None::<int>,
        },
{
    let mut j: usize = 0;
    while j < cmds.len()
        invariant
            j <= cmds@.len(),
            find_in(cmds@, seg@, 0) == find_in(cmds@, seg@, j as int),
        decreases cmds@.len() - j,
    {
        if answers_to_exec(&cmds[j], seg) {
            return Some(j);
        }
        j = j + 1;
    }
    None
}

/// Whether `c` clashes with any command of `cmds` other than the one at `skip`.
fn clashes_with_any(c: &CommandDescriptor, cmds: &Vec<CommandDescriptor>, skip: Option<usize>) -> (r: bool)
    ensures
        r == exists|j: int|
            0 <= j < cmds@.len() && skip != Some(j as usize) && (shares_name(*c, #[trigger] cmds@[j])
                || shares_name(cmds@[j], *c)),
{
    let mut j: usize = 0;
    while j < cmds.len()
        invariant
            j <= cmds@.len(),
            forall|t: int|
                0 <= t < j && skip != Some(t as usize) ==> !shares_name(*c, #[trigger] cmds@[t]) && !shares_name(
                    cmds@[t],
                    *c,
                ),
        decreases cmds@.len() - j,
    {
        if skip != Some(j) && (shares_name_exec(c, &cmds[j]) || shares_name_exec(&cmds[j], c)) {
            return true;
        }
        j = j + 1;
    }
    false
}

impl CommandDescriptor {
    /// A command with a name and a description, no aliases, no checks and no
    /// sub-commands.
    pub fn new(name: &str, description: &str) -> (r: Self)
        ensures
            r.name@ == name@,
            r.description@ == description@,
            r.aliases@.len() == 0,
            r.subcommands@.len() == 0,
            !r.gating.guild_only,
            r.gating.required_permissions == 0,
            r.gating.allowed_roles@.len() == 0,
            r.gating.bucket.is_none(),
    {
        CommandDescriptor {
            name: name.to_owned(),
            aliases: Vec::new(),
            description: description.to_owned(),
            gating: Gating::open_to_all(),
            subcommands: Vec::new(),
        }
    }

    /// Adds an alias.
    pub fn add_alias(&mut self, alias: &str)
        ensures
            final(self).aliases@ == old(self).aliases@.push(final(self).aliases@.last()),
            final(self).aliases@.last()@ == alias@,
            final(self).name == old(self).name,
            final(self).description == old(self).description,
            final(self).gating == old(self).gating,
            final(self).subcommands == old(self).subcommands,
    {
        self.aliases.push(alias.to_owned());
    }

    /// Adds a sub-command, refused when one already present shares a name or
    /// an alias with it.
    pub fn add_subcommand(&mut self, sub: CommandDescriptor) -> (r: Result<(), RegistryError>)
        ensures
            r.is_ok() <==> !exists|j: int|
                0 <= j < old(self).subcommands@.len() && (shares_name(sub, #[trigger] old(self).subcommands@[j])
                    || shares_name(old(self).subcommands@[j], sub)),
            r.is_ok() ==> final(self).subcommands@ == old(self).subcommands@.push(sub),
            r.is_err() ==> final(self).subcommands@ == old(self).subcommands@,
            final(self).name == old(self).name,
            final(self).aliases == old(self).aliases,
            final(self).description == old(self).description,
            final(self).gating == old(self).gating,
            scope_unique(old(self).subcommands@) && r.is_ok() ==> scope_unique(final(self).subcommands@),
    {
        if clashes_with_any(&sub, &self.subcommands, None) {
            return Err(RegistryError::DuplicateName);
        }
        self.subcommands.push(sub);
        Ok(())
    }
}

impl Group {
    /// A group with a name and its checks, and no commands yet.
    pub fn new(name: &str, gating: Gating) -> (r: Self)
        ensures
            r.name@ == name@,
            r.gating == gating,
            r.commands@.len() == 0,
    {
        Group { name: name.to_owned(), gating, commands: Vec::new() }
    }

    /// Adds a command to the group.
    pub fn add_command(&mut self, cmd: CommandDescriptor)
        ensures
            final(self).commands@ == old(self).commands@.push(cmd),
            final(self).name == old(self).name,
            final(self).gating == old(self).gating,
    {
        self.commands.push(cmd);
    }
}

impl Registry {
    /// A registry with no groups.
    pub fn new() -> (r: Self)
        ensures
            r.groups@.len() == 0,
            groups_unique(r.groups@),
    {
        Registry { groups: Vec::new() }
    }

    /// Adds a group, refused when two of the top-level commands would then
    /// share a name or an alias.
    pub fn register(&mut self, group: Group) -> (r: Result<(), RegistryError>)
        requires
            groups_unique(old(self).groups@),
        ensures
            r.is_ok() <==> groups_unique(old(self).groups@.push(group)),
            r.is_ok() ==> final(self).groups@ == old(self).groups@.push(group),
            r.is_err() ==> final(self).groups@ == old(self).groups@,
            groups_unique(final(self).groups@),
    {
        let ghost all = self.groups@.push(group);
        let ghost n = self.groups@.len() as int;
        let mut c: usize = 0;
        while c < group.commands.len()
            invariant
                all == self.groups@.push(group),
                n == self.groups@.len(),
                groups_unique(self.groups@),
                c <= group.commands@.len(),
                forall|c1: int, g2: int, c2: int|
                    0 <= c1 < c && 0 <= g2 < all.len() && 0 <= c2 < all[g2].commands@.len() && (g2 != n
                        || c1 != c2) ==> !shares_name(
                        #[trigger] all[n].commands@[c1],
                        #[trigger] all[g2].commands@[c2],
                    ) && !shares_name(all[g2].commands@[c2], all[n].commands@[c1]),
            decreases group.commands@.len() - c,
        {
            let cmd = &group.commands[c];
            assert(all[n] == group);
            if clashes_with_any(cmd, &group.commands, Some(c)) {
                proof {
                    let j = choose|j: int|
                        0 <= j < group.commands@.len() && Some(c) != Some(j as usize) && (shares_name(
                            *cmd,
                            #[trigger] group.commands@[j],
                        ) || shares_name(group.commands@[j], *cmd));
                    if shares_name(*cmd, group.commands@[j]) {
                        assert(!groups_unique(all)) by {
                            assert(shares_name(all[n].commands@[c as int], all[n].commands@[j]));
                        }
                    } else {
                        assert(!groups_unique(all)) by {
                            assert(shares_name(all[n].commands@[j], all[n].commands@[c as int]));
                        }
                    }
                }
                return Err(RegistryError::DuplicateName);
            }
            let mut g: usize = 0;
            while g < self.groups.len()
                invariant
                    all == self.groups@.push(group),
                    n == self.groups@.len(),
                    groups_unique(self.groups@),
                    c < group.commands@.len(),
                    *cmd == group.commands@[c as int],
                    g <= self.groups@.len(),
                    forall|g2: int, c2: int|
                        0 <= g2 < g && 0 <= c2 < all[g2].commands@.len() ==> !shares_name(
                            *cmd,
                            #[trigger] all[g2].commands@[c2],
                        ) && !shares_name(all[g2].commands@[c2], *cmd),
                decreases self.groups@.len() - g,
            {
                assert(all[g as int] == self.groups@[g as int]);
                if clashes_with_any(cmd, &self.groups[g].commands, None) {
                    proof {
                        let j = choose|j: int|
                            0 <= j < self.groups@[g as int].commands@.len() && (shares_name(
                                *cmd,
                                #[trigger] self.groups@[g as int].commands@[j],
                            ) || shares_name(self.groups@[g as int].commands@[j], *cmd));
                        if shares_name(*cmd, self.groups@[g as int].commands@[j]) {
                            assert(!groups_unique(all)) by {
                                assert(shares_name(all[n].commands@[c as int], all[g as int].commands@[j]));
                            }
                        } else {
                            assert(!groups_unique(all)) by {
                                assert(shares_name(all[g as int].commands@[j], all[n].commands@[c as int]));
                            }
                        }
                    }
                    return Err(RegistryError::DuplicateName);
                }
                g = g + 1;
            }
            proof {
                assert forall|g2: int, c2: int|
                    0 <= g2 < all.len() && 0 <= c2 < all[g2].commands@.len() && (g2 != n || c as int
                        != c2) implies !shares_name(
                    #[trigger] all[n].commands@[c as int],
                    #[trigger] all[g2].commands@[c2],
                ) && !shares_name(all[g2].commands@[c2], all[n].commands@[c as int]) by {
                    if g2 == n {
                        assert(all[g2] == group);
                    }
                }
            }
            c = c + 1;
        }
        proof {
            assert forall|g1: int, c1: int, g2: int, c2: int|
                0 <= g1 < all.len() && 0 <= g2 < all.len() && 0 <= c1 < all[g1].commands@.len() && 0 <= c2
                    < all[g2].commands@.len() && (g1 != g2 || c1 != c2) implies !shares_name(
                #[trigger] all[g1].commands@[c1],
                #[trigger] all[g2].commands@[c2],
            ) by {
                if g1 == n {
                } else if g2 == n {
                    assert(!shares_name(all[g1].commands@[c1], all[n].commands@[c2]));
                } else {
                    assert(all[g1] == self.groups@[g1]);
                    assert(all[g2] == self.groups@[g2]);
                }
            }
        }
        self.groups.push(group);
        Ok(())
    }

    /// Resolves a command path: its first segment among the top-level
    /// commands, then as deep into sub-commands as the further segments match.
    pub fn resolve<'a>(&'a self, path: &Vec<String>) -> (r: Option<Resolution<'a>>)
        ensures
            match r {
                None => resolve_spec(self.groups@, path.deep_view()) is None,
                Some(res) => resolve_spec(self.groups@, path.deep_view()) == Some(
                    (*res.group, *res.command, res.consumed as int, res.qualified@),
                ),
            },
    {
        if path.len() == 0 {
            return None;
        }
        let ghost p = path.deep_view();
        assert(p[0] == path@[0]@);
        let mut g: usize = 0;
        while g < self.groups.len()
            invariant
                path@.len() > 0,
                p == path.deep_view(),
                g <= self.groups@.len(),
                find_top(self.groups@, p[0], 0) == find_top(self.groups@, p[0], g as int),
            decreases self.groups@.len() - g,
        {
            match find_in_exec(&self.groups[g].commands, &path[0]) {
                Some(j) => {
                    let group = &self.groups[g];
                    let mut cur: &CommandDescriptor = &group.commands[j];
                    let mut qualified = cur.name.clone();
                    let ghost top = *cur;
                    let mut i: usize = 1;
                    while i < path.len()
                        invariant
                            p == path.deep_view(),
                            1 <= i <= path@.len(),
                            descend(top, p, 1, top.name@) == descend(*cur, p, i as int, qualified@),
                        ensures
                            descend(top, p, 1, top.name@) == (*cur, i as int, qualified@),
                        decreases path@.len() - i,
                    {
                        assert(p[i as int] == path@[i as int]@);
                        let ghost q0 = qualified@;
                        match find_in_exec(&cur.subcommands, &path[i]) {
                            Some(k) => {
                                cur = &cur.subcommands[k];
                                qualified = qualified.concat(" ");
                                qualified = qualified.concat(cur.name.as_str());
                                proof {
                                    reveal_strlit(" ");
                                    assert(qualified@ =~= q0 + seq![' '] + cur.name@);
                                }
                                i = i + 1;
                            },
                            None => {
                                break ;
                            },
                        }
                    }
                    return Some(Resolution { group, command: cur, consumed: i, qualified });
                },
                None => {},
            }
            g = g + 1;
        }
        None
    }
}

} // verus!
