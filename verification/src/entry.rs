//! Loading and unloading of the library.
use vstd::prelude::*;

use crate::log;
use crate::numeral;

verus! {

/// Reason of the loader: the library is being loaded.
pub const DLL_PROCESS_ATTACH: u32 = 1;

/// Reason of the loader: the library is being unloaded, or the process ends.
pub const DLL_PROCESS_DETACH: u32 = 0;

/// What the hooking library returns when it is in use already.
pub const ALREADY_INITIALIZED: i32 = 1;

/// What is done on a call of the loader.
#[derive(Clone, Copy, Debug, PartialEq, Eq, Structural)]
pub enum Entry {
    /// Start the overlay in a thread of its own.
    Attach,
    /// Remove the hook and forget everything.
    Detach,
    Nothing,
}

/// Decides what is done on a call of the loader.
///
/// A pointer that is not null tells that the whole process ends. Then other
/// libraries may be gone already, and cleaning up would be dangerous.
pub fn entry(reason: u32, reserved_is_null: bool) -> (r: Entry)
    ensures
        r == Entry::Attach <==> reason == DLL_PROCESS_ATTACH,
        r == Entry::Detach <==> reason == DLL_PROCESS_DETACH && reserved_is_null,
        r == Entry::Attach <==> reason == 1,
        r == Entry::Detach <==> reason == 0 && reserved_is_null,
{
    if reason == DLL_PROCESS_ATTACH {
        Entry::Attach
    } else if reason == DLL_PROCESS_DETACH && reserved_is_null {
        Entry::Detach
    } else {
        Entry::Nothing
    }
}

/// Whether the hooking library can be used after `MH_Initialize` returned
/// `status`. It is shared by the process, so somebody may have been first.
pub fn hooking_is_ready(status: i32) -> (r: bool)
    ensures
        r == (status == crate::hook::HOOKED || status == ALREADY_INITIALIZED),
        r <==> status == 0 || status == 1,
{
    status == crate::hook::HOOKED || status == ALREADY_INITIALIZED
}

/// The message about a panic.
pub open spec fn panic_message(location: Option<(Seq<char>, nat)>, message: Option<Seq<char>>) -> Seq<
    char,
> {
    "паника в "@ + (match location {
        Some((file, line)) => file + ":"@ + numeral::decimal(line),
        None => "неизвестно где"@,
    }) + ": "@ + (match message {
        Some(message) => message,
        None => "<без сообщения>"@,
    })
}

/// Writes the message about a panic.
pub fn panic_text(location: Option<(&str, u32)>, message: Option<&str>) -> (text: String)
    ensures
        text@ == panic_message(
            match location {
                Some((file, line)) => Some((file@, line as nat)),
                None => None,
            },
            log::maybe(message),
        ),
{
    let mut text = "паника в ".to_owned();
    let ghost head = text@;
    match location {
        Some((file, line)) => {
            text.append(file);
            text.append(":");
            numeral::push_decimal(&mut text, line as u64);
            assert(text@ =~= head + (file@ + ":"@ + numeral::decimal(line as nat)));
        },
        None => text.append("неизвестно где"),
    }
    text.append(": ");
    match message {
        Some(message) => text.append(message),
        None => text.append("<без сообщения>"),
    }
    text
}

/// The message about a panic names the file and the line after its first words, and
/// ends in what the panic said, as far as they are known.
pub proof fn law_panic_message(
    file: Seq<char>,
    line: nat,
    location: Option<(Seq<char>, nat)>,
    message: Seq<char>,
    said: Option<Seq<char>>,
)
    ensures
        ({
            let text = panic_message(Some((file, line)), said);
            let place = file + ":"@ + numeral::decimal(line) + ": "@;
            &&& text.len() >= "паника в "@.len() + place.len()
            &&& text.skip("паника в "@.len() as int).take(place.len() as int) == place
        }),
        ({
            let text = panic_message(location, Some(message));
            &&& text.len() >= message.len()
            &&& text.skip(text.len() - message.len()) == message
        }),
{
    let text = panic_message(Some((file, line)), said);
    let place = file + ":"@ + numeral::decimal(line) + ": "@;
    assert(text.skip("паника в "@.len() as int).take(place.len() as int) =~= place);
    let other = panic_message(location, Some(message));
    assert(other.skip(other.len() - message.len()) =~= message);
}

} // verus!
