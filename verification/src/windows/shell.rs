//! The entry in the context menu of the file explorer.
use vstd::prelude::*;

use crate::text;
use crate::text::text_same_ignoring_case;

verus! {

/// The menu entry's key below the current user's root key.
pub const MENU_PATH: &'static str = r"Software\Classes\*\shell\GiantFileExchange";

/// The command's key below the menu entry's.
pub const COMMAND_KEY: &'static str = "command";

/// The command that hands a file to the program: its path and the file's, each
/// in quotes.
pub open spec fn command_line(executable: Seq<char>) -> Seq<char> {
    "\""@ + executable + "\" \"%1\""@
}

/// The command that hands a file to the program.
pub fn command_for(executable: &str) -> (command: String)
    ensures
        command@ == command_line(executable@),
{
    "\"".to_owned().concat(executable).concat("\" \"%1\"")
}

/// A value in the registry.
#[derive(Debug)]
pub struct RegistryValue {
    /// Whether the value belongs to the command's key, or to the menu entry's.
    pub of_command: bool,
    pub name: &'static str,
    pub value: String,
}

/// Whether `entry` is the value `value` under `name`.
pub open spec fn is_value(
    entry: RegistryValue,
    of_command: bool,
    name: Seq<char>,
    value: Seq<char>,
) -> bool {
    entry.of_command == of_command && entry.name@ == name && entry.value@ == value
}

/// The values that make up the menu entry, in the order in which they are set.
pub fn context_menu_values(executable: &str) -> (values: Vec<RegistryValue>)
    ensures
        values@.len() == 4,
        is_value(values@[0], false, ""@, "上传到文件交换系统"@),
        is_value(values@[1], false, "MultiSelectModel"@, "Player"@),
        is_value(values@[2], false, "Icon"@, executable@),
        is_value(values@[3], true, ""@, command_line(executable@)),
{
    let mut values: Vec<RegistryValue> = Vec::new();
    values.push(
        RegistryValue { of_command: false, name: "", value: "上传到文件交换系统".to_owned() },
    );
    values.push(
        RegistryValue { of_command: false, name: "MultiSelectModel", value: "Player".to_owned() },
    );
    values.push(RegistryValue { of_command: false, name: "Icon", value: executable.to_owned() });
    values.push(RegistryValue { of_command: true, name: "", value: command_for(executable) });
    values
}

/// Whether a command found in the registry is the one of `executable`, up to the
/// case of its letters.
pub open spec fn is_registered(found: Option<Seq<char>>, executable: Seq<char>) -> bool {
    found is Some && text::same_ignoring_case(found->0, command_line(executable))
}

/// Tells whether the command found in the registry is the one of `executable`.
pub fn is_context_menu_registered(found: &Option<String>, executable: &str) -> (registered: bool)
    ensures
        registered == is_registered(text::text_option(*found), executable@),
{
    match found {
        Some(command) => text_same_ignoring_case(
            command.as_str(),
            command_for(executable).as_str(),
        ),
        None => false,
    }
}

/// Once the menu entry is set for a program, it is found registered for it, and
/// for another one only where the two paths agree up to the case of letters.
pub proof fn registered_menus_are_recognised(executable: Seq<char>, other: Seq<char>)
    ensures
        is_registered(Some(command_line(executable)), executable),
        is_registered(Some(command_line(executable)), other) <==> text::same_ignoring_case(
            executable,
            other,
        ),
        !is_registered(None, executable),
{
    reveal_strlit("\"");
    reveal_strlit("\" \"%1\"");
    let a = command_line(executable);
    let b = command_line(other);
    if text::same_ignoring_case(executable, other) {
        assert forall|i: int| 0 <= i < a.len() implies text::ascii_lower(#[trigger] a[i])
            == text::ascii_lower(b[i]) by {
            if 1 <= i < 1 + executable.len() {
                assert(a[i] == executable[i - 1]);
                assert(text::ascii_lower(executable[i - 1]) == text::ascii_lower(other[i - 1]));
            }
        }
    }
    if text::same_ignoring_case(a, b) {
        assert forall|i: int| 0 <= i < executable.len() implies text::ascii_lower(
            #[trigger] executable[i],
        ) == text::ascii_lower(other[i]) by {
            assert(a[i + 1] == executable[i]);
            assert(text::ascii_lower(a[i + 1]) == text::ascii_lower(b[i + 1]));
        }
    }
}

/// The command is the program's path in quotes, a space, and the place of the
/// file's path in quotes.
pub proof fn commands_quote_both_paths(executable: Seq<char>)
    ensures
        ({
            let command = command_line(executable);
            let n = executable.len() as int;
            &&& command.len() == n + 7
            &&& command[0] == '"'
            &&& command.subrange(1, n + 1) == executable
            &&& command.subrange(n + 1, n + 7) == seq!['"', ' ', '"', '%', '1', '"']
        }),
{
    reveal_strlit("\"");
    reveal_strlit("\" \"%1\"");
    let command = command_line(executable);
    let n = executable.len() as int;
    assert(command.subrange(1, n + 1) =~= executable);
    assert(command.subrange(n + 1, n + 7) =~= seq!['"', ' ', '"', '%', '1', '"']);
}

} // verus!
