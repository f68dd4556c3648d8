use vstd::prelude::*;
use vstd::string::*;

verus! {

/// The entries of the shell context menu, under one main menu item.
#[derive(Debug, Clone, Copy, PartialEq, Eq, Structural)]
pub enum MenuCommand {
    CompressQuick,
    CompressTo,
    DecompressQuick,
    DecompressTo,
}

pub open spec fn key_name_spec(c: MenuCommand) -> Seq<char> {
    match c {
        MenuCommand::CompressQuick => "CompressQuick"@,
        MenuCommand::CompressTo => "CompressTo"@,
        MenuCommand::DecompressQuick => "DecompressQuick"@,
        MenuCommand::DecompressTo => "DecompressTo"@,
    }
}

pub open spec fn display_name_spec(c: MenuCommand) -> Seq<char> {
    match c {
        MenuCommand::CompressQuick => "Quick Compress"@,
        MenuCommand::CompressTo => "Compress to..."@,
        MenuCommand::DecompressQuick => "Quick Decompress"@,
        MenuCommand::DecompressTo => "Decompress to..."@,
    }
}

/// What follows the quoted program path: the subcommand, `-i` for the
/// interactive forms, and the quoted `%1` placeholder.
pub open spec fn arguments_spec(c: MenuCommand) -> Seq<char> {
    match c {
        MenuCommand::CompressQuick => "\" c \"%1\""@,
        MenuCommand::CompressTo => "\" c -i \"%1\""@,
        MenuCommand::DecompressQuick => "\" d \"%1\""@,
        MenuCommand::DecompressTo => "\" d -i \"%1\""@,
    }
}

/// The command line that the shell runs for `c`.
pub open spec fn command_line_spec(c: MenuCommand, exe_path: Seq<char>) -> Seq<char> {
    "\""@ + exe_path + arguments_spec(c)
}

impl MenuCommand {
    /// Every entry, in menu order.
    pub fn all() -> (r: Vec<MenuCommand>)
        ensures
            r@ == seq![
                MenuCommand::CompressQuick,
                MenuCommand::CompressTo,
                MenuCommand::DecompressQuick,
                MenuCommand::DecompressTo,
            ],
    {
        let r = vec![
            MenuCommand::CompressQuick,
            MenuCommand::CompressTo,
            MenuCommand::DecompressQuick,
            MenuCommand::DecompressTo,
        ];
        assert(r@ =~= seq![
            MenuCommand::CompressQuick,
            MenuCommand::CompressTo,
            MenuCommand::DecompressQuick,
            MenuCommand::DecompressTo,
        ]);
        r
    }

    /// The registry key name of the entry.
    pub fn key_name(&self) -> (r: &'static str)
        ensures
            r@ == key_name_spec(*self),
    {
        match self {
            MenuCommand::CompressQuick => "CompressQuick",
            MenuCommand::CompressTo => "CompressTo",
            MenuCommand::DecompressQuick => "DecompressQuick",
            MenuCommand::DecompressTo => "DecompressTo",
        }
    }

    /// The label shown in the menu.
    pub fn display_name(&self) -> (r: &'static str)
        ensures
            r@ == display_name_spec(*self),
    {
        match self {
            MenuCommand::CompressQuick => "Quick Compress",
            MenuCommand::CompressTo => "Compress to...",
            MenuCommand::DecompressQuick => "Quick Decompress",
            MenuCommand::DecompressTo => "Decompress to...",
        }
    }

    /// The command line run for this entry by the program at `exe_path`.
    pub fn command_line(&self, exe_path: &str) -> (r: String)
        ensures
            r@ == command_line_spec(*self, exe_path@),
    {
        let tail = match self {
            MenuCommand::CompressQuick => "\" c \"%1\"",
            MenuCommand::CompressTo => "\" c -i \"%1\"",
            MenuCommand::DecompressQuick => "\" d \"%1\"",
            MenuCommand::DecompressTo => "\" d -i \"%1\"",
        };
        let s = String::from_str("\"");
        let s = s.concat(exe_path);
        s.concat(tail)
    }
}

} // verus!
