//! The known shapes of a chat line, each with the pattern that recognises it.

use vstd::prelude::*;

verus! {

/// Pattern of a chat line in the log of a dedicated server.
pub const SERVER_CHAT_PATTERN: &'static str =
    r"\[.*\] \[Server thread\/INFO\] \[net.minecraft.server.MinecraftServer\/\]: <.*>*";

/// Pattern of a chat line in a client log as the Prism launcher writes it.
pub const CLIENT_PRISM_PATTERN: &'static str =
    r"\[.*\] \[Render thread\/INFO\] \[minecraft\/ChatComponent\]: \[CHAT\] <.*>*";

/// Pattern of a chat line in a client's own log file.
pub const CLIENT_LOG_PATTERN: &'static str =
    r"\[.*\] \[Render thread\/INFO\] \[net.minecraft.client.gui.components.ChatComponent\/\]: \[CHAT\] <.*>*";

/// Pattern of any line that carries the chat marker, whoever wrote it.
pub const CATCH_ALL_PATTERN: &'static str = r".*?: \[CHAT\] .*";

/// One known producer's chat-line format.
#[derive(Clone, Copy, Debug, PartialEq, Eq, Structural)]
pub enum LogShape {
    /// A chat line of a dedicated server.
    ServerChat,
    /// A chat line of a client run from the Prism launcher.
    ClientPrism,
    /// A chat line of a client's own log file.
    ClientLog,
    /// Any line with the chat marker. Permissive: it accepts lines that carry
    /// no user name, so it is registered only on request.
    CatchAll,
}

impl LogShape {
    /// The pattern text of this shape.
    pub open spec fn pattern(self) -> Seq<char> {
        match self {
            LogShape::ServerChat => SERVER_CHAT_PATTERN@,
            LogShape::ClientPrism => CLIENT_PRISM_PATTERN@,
            LogShape::ClientLog => CLIENT_LOG_PATTERN@,
            LogShape::CatchAll => CATCH_ALL_PATTERN@,
        }
    }

    /// The pattern text of this shape.
    pub fn pattern_text(&self) -> (text: &'static str)
        ensures
            text@ == self.pattern(),
    {
        match self {
            LogShape::ServerChat => SERVER_CHAT_PATTERN,
            LogShape::ClientPrism => CLIENT_PRISM_PATTERN,
            LogShape::ClientLog => CLIENT_LOG_PATTERN,
            LogShape::CatchAll => CATCH_ALL_PATTERN,
        }
    }
}

/// The shapes that a classifier tries, in this order. The permissive shape
/// comes last, and only when `catch_all` asks for it.
pub open spec fn registry(catch_all: bool) -> Seq<LogShape> {
    if catch_all {
        seq![LogShape::ServerChat, LogShape::ClientPrism, LogShape::ClientLog, LogShape::CatchAll]
    } else {
        seq![LogShape::ServerChat, LogShape::ClientPrism, LogShape::ClientLog]
    }
}

/// The shapes that a classifier tries, in order.
pub fn registered_shapes(catch_all: bool) -> (shapes: Vec<LogShape>)
    ensures
        shapes@ == registry(catch_all),
{
    let mut shapes: Vec<LogShape> = Vec::new();
    shapes.push(LogShape::ServerChat);
    shapes.push(LogShape::ClientPrism);
    shapes.push(LogShape::ClientLog);
    if catch_all {
        shapes.push(LogShape::CatchAll);
    }
    shapes
}

} // verus!
