use vstd::prelude::*;

verus! {

/// What a command says, with its strings as character sequences.
pub enum CommandView {
    Spawn { kind: Seq<char>, x_mm: i32, y_mm: i32, z_mm: i32 },
    Meter { key: Seq<char>, value: i32 },
}

/// A deterministic output of one fixed tick: a spawn or a metered value.
#[derive(Debug, Clone)]
pub enum Command {
    Spawn { kind: String, x_mm: i32, y_mm: i32, z_mm: i32 },
    Meter { key: String, value: i32 },
}

impl View for Command {
    type V = CommandView;

    open spec fn view(&self) -> CommandView {
        match self {
            Command::Spawn { kind, x_mm, y_mm, z_mm } => CommandView::Spawn {
                kind: kind@,
                x_mm: *x_mm,
                y_mm: *y_mm,
                z_mm: *z_mm,
            },
            Command::Meter { key, value } => CommandView::Meter { key: key@, value: *value },
        }
    }
}

/// The views of a sequence of commands.
pub open spec fn command_views(cmds: Seq<Command>) -> Seq<CommandView> {
    cmds.map_values(|c: Command| c@)
}

impl Command {
    /// A spawn of `kind` at the given position in millimetres.
    pub fn spawn(kind: &str, x_mm: i32, y_mm: i32, z_mm: i32) -> (r: Command)
        ensures
            r@ == (CommandView::Spawn { kind: kind@, x_mm, y_mm, z_mm }),
    {
        Command::Spawn { kind: kind.to_owned(), x_mm, y_mm, z_mm }
    }

    /// A metered value `value` under `key`.
    pub fn meter(key: &str, value: i32) -> (r: Command)
        ensures
            r@ == (CommandView::Meter { key: key@, value }),
    {
        Command::Meter { key: key.to_owned(), value }
    }

    /// A copy of this command.
    pub fn duplicate(&self) -> (r: Command)
        ensures
            r@ == self@,
    {
        match self {
            Command::Spawn { kind, x_mm, y_mm, z_mm } => Command::Spawn {
                kind: kind.clone(),
                x_mm: *x_mm,
                y_mm: *y_mm,
                z_mm: *z_mm,
            },
            Command::Meter { key, value } => Command::Meter { key: key.clone(), value: *value },
        }
    }

    /// Whether two commands say the same thing.
    pub fn same_as(&self, other: &Command) -> (r: bool)
        ensures
            r == (self@ == other@),
    {
        match (self, other) {
            (Command::Spawn { kind: k1, x_mm: x1, y_mm: y1, z_mm: z1 }, Command::Spawn {
                kind: k2,
                x_mm: x2,
                y_mm: y2,
                z_mm: z2,
            }) => *k1 == *k2 && *x1 == *x2 && *y1 == *y2 && *z1 == *z2,
            (Command::Meter { key: k1, value: v1 }, Command::Meter { key: k2, value: v2 }) => *k1
                == *k2 && *v1 == *v2,
            _ => false,
        }
    }
}

/// Buffer of the commands produced during one fixed tick.
#[derive(Debug)]
pub struct CommandQueue {
    pub buf: Vec<Command>,
}

impl CommandQueue {
    /// An empty queue.
    pub fn new() -> (r: Self)
        ensures
            r.buf@.len() == 0,
    {
        CommandQueue { buf: Vec::new() }
    }

    /// What the queue holds, oldest first.
    pub open spec fn commands(&self) -> Seq<CommandView> {
        command_views(self.buf@)
    }

    /// Appends a spawn command.
    pub fn spawn(&mut self, kind: &str, x_mm: i32, y_mm: i32, z_mm: i32)
        ensures
            final(self).commands() == old(self).commands().push(
                CommandView::Spawn { kind: kind@, x_mm, y_mm, z_mm },
            ),
    {
        let cmd = Command::spawn(kind, x_mm, y_mm, z_mm);
        self.buf.push(cmd);
        assert(command_views(self.buf@) =~= command_views(old(self).buf@).push(cmd@));
    }

    /// Appends a meter command.
    pub fn meter(&mut self, key: &str, value: i32)
        ensures
            final(self).commands() == old(self).commands().push(
                CommandView::Meter { key: key@, value },
            ),
    {
        let cmd = Command::meter(key, value);
        self.buf.push(cmd);
        assert(command_views(self.buf@) =~= command_views(old(self).buf@).push(cmd@));
    }

    /// Takes every queued command out, oldest first, leaving the queue empty.
    pub fn drain(&mut self) -> (r: Vec<Command>)
        ensures
            r@ == old(self).buf@,
            final(self).buf@.len() == 0,
    {
        let mut out: Vec<Command> = Vec::new();
        std::mem::swap(&mut out, &mut self.buf);
        out
    }
}

} // verus!
