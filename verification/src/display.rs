//! The display of the dashboard.

use vstd::prelude::*;

use crate::paths::PathFacts;
use crate::text::{concat2, concat3, decimal, decimal_text, strip_leading, texts, trim_start_char};
use crate::transport::bridge::{AegisError, ErrorView};

verus! {

/// What the dashboard needs to connect.
#[derive(Debug, Clone, PartialEq, Eq)]
pub struct DashboardBootstrap {
    pub websocket_path: String,
    pub can_reconnect: bool,
}

/// What the dashboard needs to connect.
pub fn dashboard_bootstrap() -> (res: DashboardBootstrap)
    ensures
        res.websocket_path@ == "/ui/vnc"@,
        res.can_reconnect,
{
    DashboardBootstrap { websocket_path: "/ui/vnc".to_owned(), can_reconnect: true }
}

/// The first display that is tried.
pub const FIRST_DISPLAY: u64 = 90;

/// The display after the last that is tried.
pub const DISPLAY_LIMIT: u64 = 200;

/// The socket of a display.
pub open spec fn socket_of(number: nat) -> Seq<char> {
    "/tmp/.X11-unix/X"@ + decimal_text(number)
}

/// The lock of a display.
pub open spec fn lock_of(number: nat) -> Seq<char> {
    "/tmp/.X"@ + decimal_text(number) + "-lock"@
}

/// Whether a display is free: neither its socket nor its lock is there.
pub open spec fn display_free(facts: PathFacts, number: nat) -> bool {
    !facts.has(socket_of(number)) && !facts.has(lock_of(number))
}

/// Whether a list holds the socket and the lock of a display.
pub open spec fn tells_of(list: Seq<Seq<char>>, number: nat) -> bool {
    list.contains(socket_of(number)) && list.contains(lock_of(number))
}

/// The files that tell which displays are taken.
pub fn display_probe_paths() -> (res: Vec<String>)
    ensures
        forall|n: nat|
            FIRST_DISPLAY <= n < DISPLAY_LIMIT ==> #[trigger] tells_of(texts(res@), n),
{
    let mut out: Vec<String> = Vec::new();
    let mut number: u64 = FIRST_DISPLAY;
    while number < DISPLAY_LIMIT
        invariant
            FIRST_DISPLAY <= number <= DISPLAY_LIMIT,
            forall|n: nat| FIRST_DISPLAY <= n < number ==> #[trigger] tells_of(texts(out@), n),
        decreases DISPLAY_LIMIT - number,
    {
        let ghost before = texts(out@);
        let digits = decimal(number);
        out.push(concat2("/tmp/.X11-unix/X", digits.as_str()));
        out.push(concat3("/tmp/.X", digits.as_str(), "-lock"));
        proof {
            let after = texts(out@);
            let n0 = before.len() as int;
            assert(after[n0] == socket_of(number as nat));
            assert(after[n0 + 1] == lock_of(number as nat));
            assert forall|x: Seq<char>| before.contains(x) implies #[trigger] after.contains(x) by {
                let i = choose|i: int| 0 <= i < before.len() && before[i] == x;
                assert(after[i] == x);
            }
            assert forall|n: nat| FIRST_DISPLAY <= n < number + 1 implies #[trigger] tells_of(
                after,
                n,
            ) by {
                if n < number {
                    assert(tells_of(before, n));
                }
            }
        }
        number += 1;
    }
    out
}

/// The first free display.
pub fn reserve_display_name(facts: &PathFacts) -> (res: Result<String, AegisError>)
    ensures
        match res {
            Ok(name) => exists|n: nat| #[trigger]
                display_free(*facts, n) && FIRST_DISPLAY <= n < DISPLAY_LIMIT && name@ == ":"@
                    + decimal_text(n) && forall|m: nat|
                    FIRST_DISPLAY <= m < n ==> !#[trigger] display_free(*facts, m),
            Err(e) => (forall|m: nat|
                FIRST_DISPLAY <= m < DISPLAY_LIMIT ==> !#[trigger] display_free(*facts, m)) && e@
                == ErrorView::Bridge(
                "failed to reserve a free X display for the Linux dashboard"@,
            ),
        },
{
    let mut number: u64 = FIRST_DISPLAY;
    while number < DISPLAY_LIMIT
        invariant
            FIRST_DISPLAY <= number <= DISPLAY_LIMIT,
            forall|m: nat| FIRST_DISPLAY <= m < number ==> !#[trigger] display_free(*facts, m),
        decreases DISPLAY_LIMIT - number,
    {
        let digits = decimal(number);
        let socket = concat2("/tmp/.X11-unix/X", digits.as_str());
        let lock = concat3("/tmp/.X", digits.as_str(), "-lock");
        if !facts.knows(socket.as_str()) && !facts.knows(lock.as_str()) {
            assert(display_free(*facts, number as nat));
            return Ok(concat2(":", digits.as_str()));
        }
        assert(!display_free(*facts, number as nat));
        number += 1;
    }
    Err(
        AegisError::Bridge(
            "failed to reserve a free X display for the Linux dashboard".to_owned(),
        ),
    )
}

/// The socket of a display with a name such as `:90`.
pub fn display_socket(display: &str) -> (res: String)
    ensures
        res@ == "/tmp/.X11-unix/X"@ + strip_leading(display@, ':'),
{
    let number = trim_start_char(display, ':');
    concat2("/tmp/.X11-unix/X", number.as_str())
}

/// A display is free exactly when there is neither its socket nor its lock; displays from 90 to 199
/// are looked at.
pub proof fn law_free_displays(facts: PathFacts, number: nat)
    ensures
        display_free(facts, number) <==> !facts.has("/tmp/.X11-unix/X"@ + decimal_text(number))
            && !facts.has("/tmp/.X"@ + decimal_text(number) + "-lock"@),
        FIRST_DISPLAY == 90 && DISPLAY_LIMIT == 200,
{
}

/// What is looked at for a display is its socket and its lock.
pub proof fn law_probes_of_a_display(list: Seq<Seq<char>>, number: nat)
    ensures
        tells_of(list, number) <==> list.contains("/tmp/.X11-unix/X"@ + decimal_text(number))
            && list.contains("/tmp/.X"@ + decimal_text(number) + "-lock"@),
{
}

} // verus!
