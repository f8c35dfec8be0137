//! Raw command ids that the client sends without a registered handler, and
//! the fixed success replies they get.
use crate::packet::{client_decode, ClientPacket, PacketError, ServerPacket};
use vstd::prelude::*;

verus! {

/// The command a compatibility id stands for.
#[derive(Clone, Copy, Debug, PartialEq, Eq)]
pub enum CompatibilityCommandKind {
    CurrencyExchangeSameCurrency,
    TowerComposeGetInfo,
    PartyMatchPartyServerList,
}

/// A raw command answered with a fixed success reply.
#[derive(Clone, Copy, Debug, PartialEq, Eq)]
pub struct CompatibilityCommand(pub CompatibilityCommandKind);

/// The raw id of each compatibility command.
pub open spec fn kind_raw_id(k: CompatibilityCommandKind) -> i16 {
    match k {
        CompatibilityCommandKind::CurrencyExchangeSameCurrency => 20144,
        CompatibilityCommandKind::TowerComposeGetInfo => 13540,
        CompatibilityCommandKind::PartyMatchPartyServerList => -16527i16,
    }
}

/// The request name of each compatibility command.
pub open spec fn kind_name(k: CompatibilityCommandKind) -> Seq<char> {
    match k {
        CompatibilityCommandKind::CurrencyExchangeSameCurrency => "Currency.ExchangeSameCurrencyRequest"@,
        CompatibilityCommandKind::TowerComposeGetInfo => "TowerCompose.TowerComposeGetInfoRequest"@,
        CompatibilityCommandKind::PartyMatchPartyServerList => "PartyMatch.PartyServerListRequest"@,
    }
}

/// The reply body of each compatibility command: empty, except a present but
/// empty tower compose info.
pub open spec fn kind_body(k: CompatibilityCommandKind) -> Seq<u8> {
    match k {
        CompatibilityCommandKind::TowerComposeGetInfo => seq![0x0Au8, 0x00u8],
        _ => Seq::empty(),
    }
}

impl CompatibilityCommand {
    /// The compatibility command with raw id `raw_id`, if there is one.
    pub fn from_raw_id(raw_id: i16) -> (r: Option<Self>)
        ensures
            match r {
                Some(c) => kind_raw_id(c.0) == raw_id,
                None => forall|k: CompatibilityCommandKind| kind_raw_id(k) != raw_id,
            },
    {
        if raw_id == 20144 {
            Some(CompatibilityCommand(CompatibilityCommandKind::CurrencyExchangeSameCurrency))
        } else if raw_id == 13540 {
            Some(CompatibilityCommand(CompatibilityCommandKind::TowerComposeGetInfo))
        } else if raw_id == -16527 {
            Some(CompatibilityCommand(CompatibilityCommandKind::PartyMatchPartyServerList))
        } else {
            None
        }
    }

    /// The command's raw id.
    pub fn raw_id(self) -> (id: i16)
        ensures
            id == kind_raw_id(self.0),
    {
        match self.0 {
            CompatibilityCommandKind::CurrencyExchangeSameCurrency => 20144,
            CompatibilityCommandKind::TowerComposeGetInfo => 13540,
            CompatibilityCommandKind::PartyMatchPartyServerList => -16527,
        }
    }

    /// The name of the request the command stands for.
    pub fn name(self) -> (n: &'static str)
        ensures
            n@ == kind_name(self.0),
    {
        match self.0 {
            CompatibilityCommandKind::CurrencyExchangeSameCurrency => "Currency.ExchangeSameCurrencyRequest",
            CompatibilityCommandKind::TowerComposeGetInfo => "TowerCompose.TowerComposeGetInfoRequest",
            CompatibilityCommandKind::PartyMatchPartyServerList => "PartyMatch.PartyServerListRequest",
        }
    }

    /// The body of the command's success reply.
    pub fn success_body(self) -> (b: Vec<u8>)
        ensures
            b@ == kind_body(self.0),
    {
        match self.0 {
            CompatibilityCommandKind::TowerComposeGetInfo => {
                let mut b: Vec<u8> = Vec::new();
                b.push(0x0A);
                b.push(0x00);
                assert(b@ =~= seq![0x0Au8, 0x00u8]);
                b
            },
            _ => {
                let b: Vec<u8> = Vec::new();
                assert(b@ =~= Seq::<u8>::empty());
                b
            },
        }
    }
}

/// What to do with a raw command id that has no handler.
#[derive(Debug)]
pub enum RawCommandPolicy {
    /// Reply with result code 0 and this body.
    StaticSuccessReply { command: CompatibilityCommand, body: Vec<u8> },
}

/// The policy for a raw command id: compatibility commands get their fixed
/// success reply; other ids have none.
pub fn raw_command_policy(cmd_id: i16) -> (r: Option<RawCommandPolicy>)
    ensures
        match r {
            Some(RawCommandPolicy::StaticSuccessReply { command, body }) => kind_raw_id(command.0)
                == cmd_id && body@ == kind_body(command.0),
            None => forall|k: CompatibilityCommandKind| kind_raw_id(k) != cmd_id,
        },
{
    match CompatibilityCommand::from_raw_id(cmd_id) {
        Some(command) => Some(
            RawCommandPolicy::StaticSuccessReply { command, body: command.success_body() },
        ),
        None => None,
    }
}

/// Where a client packet goes.
#[derive(Debug)]
pub enum PacketRoute {
    /// A compatibility command: reply with this body and the request's tag.
    Compatibility { command: CompatibilityCommand, body: Vec<u8>, up_tag: u8 },
    /// Any other command: the registered handler, if one exists, takes it.
    Handler(ClientPacket),
}

/// Reads a client packet and decides where it goes.
pub fn route_client_packet(req: &[u8]) -> (r: Result<PacketRoute, PacketError>)
    ensures
        match client_decode(req@) {
            Err(e) => r == Err::<PacketRoute, PacketError>(e),
            Ok((sequence, cmd_id, up_tag, data)) => match r {
                Ok(PacketRoute::Compatibility { command, body, up_tag: tag }) => kind_raw_id(command.0)
                    == cmd_id && body@ == kind_body(command.0) && tag == up_tag,
                Ok(PacketRoute::Handler(p)) => (forall|k: CompatibilityCommandKind|
                    kind_raw_id(k) != cmd_id) && p.sequence == sequence && p.cmd_id == cmd_id
                    && p.up_tag == up_tag && p.data@ == data,
                Err(_) => false,
            },
        },
{
    let packet = match ClientPacket::decode(req) {
        Ok(p) => p,
        Err(e) => return Err(e),
    };
    match raw_command_policy(packet.cmd_id) {
        Some(RawCommandPolicy::StaticSuccessReply { command, body }) => Ok(
            PacketRoute::Compatibility { command, body, up_tag: packet.up_tag },
        ),
        None => Ok(PacketRoute::Handler(packet)),
    }
}

/// The reply to a compatibility command: its raw id, result code 0, the
/// request's tag, the down tag after `last_down_tag` (wrapping), and the
/// command's fixed success body.
pub fn compatibility_reply(command: CompatibilityCommand, up_tag: u8, last_down_tag: u8) -> (p:
    ServerPacket)
    ensures
        p.cmd_id == kind_raw_id(command.0),
        p.result_code == 0,
        p.up_tag == up_tag,
        p.down_tag == (if last_down_tag == 255 {
            0
        } else {
            last_down_tag + 1
        }),
        p.data@ == kind_body(command.0),
{
    let down_tag = if last_down_tag == 255 {
        0
    } else {
        last_down_tag + 1
    };
    ServerPacket {
        cmd_id: command.raw_id(),
        result_code: 0,
        up_tag,
        down_tag,
        data: command.success_body(),
    }
}

} // verus!
