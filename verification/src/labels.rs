use vstd::prelude::*;

verus! {

/// "Yes", as the settings tables show a set flag.
pub open spec fn yes_label() -> Seq<char> {
    "Да"@
}

/// "No", as the settings tables show a cleared flag.
pub open spec fn no_label() -> Seq<char> {
    "Нет"@
}

/// The text of a flag in the settings tables.
pub open spec fn yes_no(b: bool) -> Seq<char> {
    if b { yes_label() } else { no_label() }
}

/// Status of a project that is not running.
pub open spec fn stopped_label() -> Seq<char> {
    "Остановлен"@
}

/// Status of a running project.
pub open spec fn running_label() -> Seq<char> {
    "Работает"@
}

/// Status of a project that is being restarted.
pub open spec fn restarting_label() -> Seq<char> {
    "Перезапуск"@
}

/// A ticked check box.
pub open spec fn checked_label() -> Seq<char> {
    "☑"@
}

/// An empty check box.
pub open spec fn unchecked_label() -> Seq<char> {
    "☐"@
}

/// The labels that the tables compare against are distinct texts.
pub proof fn lemma_labels_distinct()
    ensures
        yes_label() != no_label(),
        checked_label() != unchecked_label(),
{
    reveal_strlit("Да");
    reveal_strlit("Нет");
    reveal_strlit("☑");
    reveal_strlit("☐");
    assert(yes_label().len() != no_label().len());
    assert(checked_label()[0] != unchecked_label()[0]);
}

pub fn yes_text() -> (s: String)
    ensures
        s@ == yes_label(),
{
    String::from_str("Да")
}

pub fn no_text() -> (s: String)
    ensures
        s@ == no_label(),
{
    String::from_str("Нет")
}

/// The text of a flag in the settings tables.
pub fn yes_no_text(b: bool) -> (s: String)
    ensures
        s@ == yes_no(b),
{
    if b {
        yes_text()
    } else {
        no_text()
    }
}

/// Whether a cell says "yes".
pub fn is_yes(s: &String) -> (r: bool)
    ensures
        r == (s@ == yes_label()),
{
    let y = yes_text();
    *s == y
}

pub fn stopped_text() -> (s: String)
    ensures
        s@ == stopped_label(),
{
    String::from_str("Остановлен")
}

pub fn running_text() -> (s: String)
    ensures
        s@ == running_label(),
{
    String::from_str("Работает")
}

pub fn restarting_text() -> (s: String)
    ensures
        s@ == restarting_label(),
{
    String::from_str("Перезапуск")
}

pub fn checked_text() -> (s: String)
    ensures
        s@ == checked_label(),
{
    String::from_str("☑")
}

pub fn unchecked_text() -> (s: String)
    ensures
        s@ == unchecked_label(),
{
    String::from_str("☐")
}

/// Whether a cell holds a ticked check box.
pub fn is_checked(s: &String) -> (r: bool)
    ensures
        r == (s@ == checked_label()),
{
    let c = checked_text();
    *s == c
}

/// Whether a cell holds an empty check box.
pub fn is_unchecked(s: &String) -> (r: bool)
    ensures
        r == (s@ == unchecked_label()),
{
    let c = unchecked_text();
    *s == c
}

} // verus!
