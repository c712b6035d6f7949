use crate::error::{BdavErrorDetails, Error, ErrorDetails, MObjCmdErrorDetails};
use crate::slice_reader::{be32, SliceReader};
use vstd::prelude::*;

verus! {

/// Top-level command group.
#[derive(Debug, Clone, Copy, PartialEq, Eq, Structural)]
pub enum MObjGroup {
    Branch,
    Cmp,
    /// Register and system settings.
    Assign,
}

/// Sub-group of a branch command.
#[derive(Debug, Clone, Copy, PartialEq, Eq, Structural)]
pub enum BranchSubGroup {
    Goto,
    Jump,
    Play,
}

/// Sub-group of a set command.
#[derive(Debug, Clone, Copy, PartialEq, Eq, Structural)]
pub enum SetSubGroup {
    /// Register arithmetic.
    Assign,
    SetSystem,
}

/// A Movie Object operation, resolved from group, sub-group and option.
#[derive(Debug, Clone, Copy, PartialEq, Eq, Structural)]
pub enum MObjOpcode {
    /// `nop`
    Nop,
    /// `goto`
    Goto,
    /// `break`
    Break,
    /// `jump_object`
    JumpObject,
    /// `jump_title`
    JumpTitle,
    /// `call_object`
    CallObject,
    /// `call_title`
    CallTitle,
    /// `resume`
    Resume,
    /// `play_pl`
    PlayPlaylist,
    /// `play_pl_pi`
    PlayPlaylistItem,
    /// `play_pl_pm`
    PlayPlaylistMark,
    /// `terminate_pl`
    TerminatePlaylist,
    /// `link_pi`
    LinkItem,
    /// `link_mk`
    LinkMark,
    /// `bc`
    Bc,
    /// `eq`
    Eq,
    /// `ne`
    Ne,
    /// `ge`
    Ge,
    /// `gt`
    Gt,
    /// `le`
    Le,
    /// `lt`
    Lt,
    /// `move`
    Move,
    /// `swap`
    Swap,
    /// `add`
    Add,
    /// `sub`
    Sub,
    /// `mul`
    Mul,
    /// `div`
    Div,
    /// `mod`
    Mod,
    /// `rnd`
    Rnd,
    /// `and`
    And,
    /// `or`
    Or,
    /// `xor`
    Xor,
    /// `bset`
    Bitset,
    /// `bclr`
    Bitclr,
    /// `shl`
    Shl,
    /// `shr`
    Shr,
    /// `set_stream`
    SetStream,
    /// `set_nv_timer`
    SetNvTimer,
    /// `set_button_page`
    SetButtonPage,
    /// `enable_button`
    EnableButton,
    /// `disable_button`
    DisableButton,
    /// `set_sec_stream`
    SetSecStream,
    /// `popup_off`
    PopupOff,
    /// `still_on`
    StillOn,
    /// `still_off`
    StillOff,
    /// `set_output_mode`
    SetOutputMode,
    /// `set_stream_ss`
    SetStreamSs,
    /// `bd_plus_msg`
    BdPlusMsg,
}

/// The two-bit group field of an operation.
pub open spec fn op_group(op: MObjOpcode) -> u8 {
    match op {
        MObjOpcode::Nop => 0u8,
        MObjOpcode::Goto => 0u8,
        MObjOpcode::Break => 0u8,
        MObjOpcode::JumpObject => 0u8,
        MObjOpcode::JumpTitle => 0u8,
        MObjOpcode::CallObject => 0u8,
        MObjOpcode::CallTitle => 0u8,
        MObjOpcode::Resume => 0u8,
        MObjOpcode::PlayPlaylist => 0u8,
        MObjOpcode::PlayPlaylistItem => 0u8,
        MObjOpcode::PlayPlaylistMark => 0u8,
        MObjOpcode::TerminatePlaylist => 0u8,
        MObjOpcode::LinkItem => 0u8,
        MObjOpcode::LinkMark => 0u8,
        MObjOpcode::Bc => 1u8,
        MObjOpcode::Eq => 1u8,
        MObjOpcode::Ne => 1u8,
        MObjOpcode::Ge => 1u8,
        MObjOpcode::Gt => 1u8,
        MObjOpcode::Le => 1u8,
        MObjOpcode::Lt => 1u8,
        MObjOpcode::Move => 2u8,
        MObjOpcode::Swap => 2u8,
        MObjOpcode::Add => 2u8,
        MObjOpcode::Sub => 2u8,
        MObjOpcode::Mul => 2u8,
        MObjOpcode::Div => 2u8,
        MObjOpcode::Mod => 2u8,
        MObjOpcode::Rnd => 2u8,
        MObjOpcode::And => 2u8,
        MObjOpcode::Or => 2u8,
        MObjOpcode::Xor => 2u8,
        MObjOpcode::Bitset => 2u8,
        MObjOpcode::Bitclr => 2u8,
        MObjOpcode::Shl => 2u8,
        MObjOpcode::Shr => 2u8,
        MObjOpcode::SetStream => 2u8,
        MObjOpcode::SetNvTimer => 2u8,
        MObjOpcode::SetButtonPage => 2u8,
        MObjOpcode::EnableButton => 2u8,
        MObjOpcode::DisableButton => 2u8,
        MObjOpcode::SetSecStream => 2u8,
        MObjOpcode::PopupOff => 2u8,
        MObjOpcode::StillOn => 2u8,
        MObjOpcode::StillOff => 2u8,
        MObjOpcode::SetOutputMode => 2u8,
        MObjOpcode::SetStreamSs => 2u8,
        MObjOpcode::BdPlusMsg => 2u8,
    }
}

/// The three-bit sub-group field of an operation (0 for comparisons).
pub open spec fn op_sub_group(op: MObjOpcode) -> u8 {
    match op {
        MObjOpcode::Nop => 0u8,
        MObjOpcode::Goto => 0u8,
        MObjOpcode::Break => 0u8,
        MObjOpcode::JumpObject => 1u8,
        MObjOpcode::JumpTitle => 1u8,
        MObjOpcode::CallObject => 1u8,
        MObjOpcode::CallTitle => 1u8,
        MObjOpcode::Resume => 1u8,
        MObjOpcode::PlayPlaylist => 2u8,
        MObjOpcode::PlayPlaylistItem => 2u8,
        MObjOpcode::PlayPlaylistMark => 2u8,
        MObjOpcode::TerminatePlaylist => 2u8,
        MObjOpcode::LinkItem => 2u8,
        MObjOpcode::LinkMark => 2u8,
        MObjOpcode::Bc => 0u8,
        MObjOpcode::Eq => 0u8,
        MObjOpcode::Ne => 0u8,
        MObjOpcode::Ge => 0u8,
        MObjOpcode::Gt => 0u8,
        MObjOpcode::Le => 0u8,
        MObjOpcode::Lt => 0u8,
        MObjOpcode::Move => 0u8,
        MObjOpcode::Swap => 0u8,
        MObjOpcode::Add => 0u8,
        MObjOpcode::Sub => 0u8,
        MObjOpcode::Mul => 0u8,
        MObjOpcode::Div => 0u8,
        MObjOpcode::Mod => 0u8,
        MObjOpcode::Rnd => 0u8,
        MObjOpcode::And => 0u8,
        MObjOpcode::Or => 0u8,
        MObjOpcode::Xor => 0u8,
        MObjOpcode::Bitset => 0u8,
        MObjOpcode::Bitclr => 0u8,
        MObjOpcode::Shl => 0u8,
        MObjOpcode::Shr => 0u8,
        MObjOpcode::SetStream => 1u8,
        MObjOpcode::SetNvTimer => 1u8,
        MObjOpcode::SetButtonPage => 1u8,
        MObjOpcode::EnableButton => 1u8,
        MObjOpcode::DisableButton => 1u8,
        MObjOpcode::SetSecStream => 1u8,
        MObjOpcode::PopupOff => 1u8,
        MObjOpcode::StillOn => 1u8,
        MObjOpcode::StillOff => 1u8,
        MObjOpcode::SetOutputMode => 1u8,
        MObjOpcode::SetStreamSs => 1u8,
        MObjOpcode::BdPlusMsg => 1u8,
    }
}

/// The option value of an operation, stored in the field that its group selects.
pub open spec fn op_option(op: MObjOpcode) -> u8 {
    match op {
        MObjOpcode::Nop => 0u8,
        MObjOpcode::Goto => 1u8,
        MObjOpcode::Break => 2u8,
        MObjOpcode::JumpObject => 0u8,
        MObjOpcode::JumpTitle => 1u8,
        MObjOpcode::CallObject => 2u8,
        MObjOpcode::CallTitle => 3u8,
        MObjOpcode::Resume => 4u8,
        MObjOpcode::PlayPlaylist => 0u8,
        MObjOpcode::PlayPlaylistItem => 1u8,
        MObjOpcode::PlayPlaylistMark => 2u8,
        MObjOpcode::TerminatePlaylist => 3u8,
        MObjOpcode::LinkItem => 4u8,
        MObjOpcode::LinkMark => 5u8,
        MObjOpcode::Bc => 1u8,
        MObjOpcode::Eq => 2u8,
        MObjOpcode::Ne => 3u8,
        MObjOpcode::Ge => 4u8,
        MObjOpcode::Gt => 5u8,
        MObjOpcode::Le => 6u8,
        MObjOpcode::Lt => 7u8,
        MObjOpcode::Move => 1u8,
        MObjOpcode::Swap => 2u8,
        MObjOpcode::Add => 3u8,
        MObjOpcode::Sub => 4u8,
        MObjOpcode::Mul => 5u8,
        MObjOpcode::Div => 6u8,
        MObjOpcode::Mod => 7u8,
        MObjOpcode::Rnd => 8u8,
        MObjOpcode::And => 9u8,
        MObjOpcode::Or => 10u8,
        MObjOpcode::Xor => 11u8,
        MObjOpcode::Bitset => 12u8,
        MObjOpcode::Bitclr => 13u8,
        MObjOpcode::Shl => 14u8,
        MObjOpcode::Shr => 15u8,
        MObjOpcode::SetStream => 1u8,
        MObjOpcode::SetNvTimer => 2u8,
        MObjOpcode::SetButtonPage => 3u8,
        MObjOpcode::EnableButton => 4u8,
        MObjOpcode::DisableButton => 5u8,
        MObjOpcode::SetSecStream => 6u8,
        MObjOpcode::PopupOff => 7u8,
        MObjOpcode::StillOn => 8u8,
        MObjOpcode::StillOff => 9u8,
        MObjOpcode::SetOutputMode => 10u8,
        MObjOpcode::SetStreamSs => 11u8,
        MObjOpcode::BdPlusMsg => 16u8,
    }
}

/// The mnemonic of an operation, as ASCII bytes.
#[verifier::opaque]
pub open spec fn mnemonic_of(op: MObjOpcode) -> Seq<u8> {
    match op {
        // nop
        MObjOpcode::Nop => seq![0x6e, 0x6f, 0x70],
        // goto
        MObjOpcode::Goto => seq![0x67, 0x6f, 0x74, 0x6f],
        // break
        MObjOpcode::Break => seq![0x62, 0x72, 0x65, 0x61, 0x6b],
        // jump_object
        MObjOpcode::JumpObject => seq![0x6a, 0x75, 0x6d, 0x70, 0x5f, 0x6f, 0x62, 0x6a, 0x65, 0x63, 0x74],
        // jump_title
        MObjOpcode::JumpTitle => seq![0x6a, 0x75, 0x6d, 0x70, 0x5f, 0x74, 0x69, 0x74, 0x6c, 0x65],
        // call_object
        MObjOpcode::CallObject => seq![0x63, 0x61, 0x6c, 0x6c, 0x5f, 0x6f, 0x62, 0x6a, 0x65, 0x63, 0x74],
        // call_title
        MObjOpcode::CallTitle => seq![0x63, 0x61, 0x6c, 0x6c, 0x5f, 0x74, 0x69, 0x74, 0x6c, 0x65],
        // resume
        MObjOpcode::Resume => seq![0x72, 0x65, 0x73, 0x75, 0x6d, 0x65],
        // play_pl
        MObjOpcode::PlayPlaylist => seq![0x70, 0x6c, 0x61, 0x79, 0x5f, 0x70, 0x6c],
        // play_pl_pi
        MObjOpcode::PlayPlaylistItem => seq![0x70, 0x6c, 0x61, 0x79, 0x5f, 0x70, 0x6c, 0x5f, 0x70, 0x69],
        // play_pl_pm
        MObjOpcode::PlayPlaylistMark => seq![0x70, 0x6c, 0x61, 0x79, 0x5f, 0x70, 0x6c, 0x5f, 0x70, 0x6d],
        // terminate_pl
        MObjOpcode::TerminatePlaylist => seq![0x74, 0x65, 0x72, 0x6d, 0x69, 0x6e, 0x61, 0x74, 0x65, 0x5f, 0x70, 0x6c],
        // link_pi
        MObjOpcode::LinkItem => seq![0x6c, 0x69, 0x6e, 0x6b, 0x5f, 0x70, 0x69],
        // link_mk
        MObjOpcode::LinkMark => seq![0x6c, 0x69, 0x6e, 0x6b, 0x5f, 0x6d, 0x6b],
        // bc
        MObjOpcode::Bc => seq![0x62, 0x63],
        // eq
        MObjOpcode::Eq => seq![0x65, 0x71],
        // ne
        MObjOpcode::Ne => seq![0x6e, 0x65],
        // ge
        MObjOpcode::Ge => seq![0x67, 0x65],
        // gt
        MObjOpcode::Gt => seq![0x67, 0x74],
        // le
        MObjOpcode::Le => seq![0x6c, 0x65],
        // lt
        MObjOpcode::Lt => seq![0x6c, 0x74],
        // move
        MObjOpcode::Move => seq![0x6d, 0x6f, 0x76, 0x65],
        // swap
        MObjOpcode::Swap => seq![0x73, 0x77, 0x61, 0x70],
        // add
        MObjOpcode::Add => seq![0x61, 0x64, 0x64],
        // sub
        MObjOpcode::Sub => seq![0x73, 0x75, 0x62],
        // mul
        MObjOpcode::Mul => seq![0x6d, 0x75, 0x6c],
        // div
        MObjOpcode::Div => seq![0x64, 0x69, 0x76],
        // mod
        MObjOpcode::Mod => seq![0x6d, 0x6f, 0x64],
        // rnd
        MObjOpcode::Rnd => seq![0x72, 0x6e, 0x64],
        // and
        MObjOpcode::And => seq![0x61, 0x6e, 0x64],
        // or
        MObjOpcode::Or => seq![0x6f, 0x72],
        // xor
        MObjOpcode::Xor => seq![0x78, 0x6f, 0x72],
        // bset
        MObjOpcode::Bitset => seq![0x62, 0x73, 0x65, 0x74],
        // bclr
        MObjOpcode::Bitclr => seq![0x62, 0x63, 0x6c, 0x72],
        // shl
        MObjOpcode::Shl => seq![0x73, 0x68, 0x6c],
        // shr
        MObjOpcode::Shr => seq![0x73, 0x68, 0x72],
        // set_stream
        MObjOpcode::SetStream => seq![0x73, 0x65, 0x74, 0x5f, 0x73, 0x74, 0x72, 0x65, 0x61, 0x6d],
        // set_nv_timer
        MObjOpcode::SetNvTimer => seq![0x73, 0x65, 0x74, 0x5f, 0x6e, 0x76, 0x5f, 0x74, 0x69, 0x6d, 0x65, 0x72],
        // set_button_page
        MObjOpcode::SetButtonPage => seq![0x73, 0x65, 0x74, 0x5f, 0x62, 0x75, 0x74, 0x74, 0x6f, 0x6e, 0x5f, 0x70, 0x61, 0x67, 0x65],
        // enable_button
        MObjOpcode::EnableButton => seq![0x65, 0x6e, 0x61, 0x62, 0x6c, 0x65, 0x5f, 0x62, 0x75, 0x74, 0x74, 0x6f, 0x6e],
        // disable_button
        MObjOpcode::DisableButton => seq![0x64, 0x69, 0x73, 0x61, 0x62, 0x6c, 0x65, 0x5f, 0x62, 0x75, 0x74, 0x74, 0x6f, 0x6e],
        // set_sec_stream
        MObjOpcode::SetSecStream => seq![0x73, 0x65, 0x74, 0x5f, 0x73, 0x65, 0x63, 0x5f, 0x73, 0x74, 0x72, 0x65, 0x61, 0x6d],
        // popup_off
        MObjOpcode::PopupOff => seq![0x70, 0x6f, 0x70, 0x75, 0x70, 0x5f, 0x6f, 0x66, 0x66],
        // still_on
        MObjOpcode::StillOn => seq![0x73, 0x74, 0x69, 0x6c, 0x6c, 0x5f, 0x6f, 0x6e],
        // still_off
        MObjOpcode::StillOff => seq![0x73, 0x74, 0x69, 0x6c, 0x6c, 0x5f, 0x6f, 0x66, 0x66],
        // set_output_mode
        MObjOpcode::SetOutputMode => seq![0x73, 0x65, 0x74, 0x5f, 0x6f, 0x75, 0x74, 0x70, 0x75, 0x74, 0x5f, 0x6d, 0x6f, 0x64, 0x65],
        // set_stream_ss
        MObjOpcode::SetStreamSs => seq![0x73, 0x65, 0x74, 0x5f, 0x73, 0x74, 0x72, 0x65, 0x61, 0x6d, 0x5f, 0x73, 0x73],
        // bd_plus_msg
        MObjOpcode::BdPlusMsg => seq![0x62, 0x64, 0x5f, 0x70, 0x6c, 0x75, 0x73, 0x5f, 0x6d, 0x73, 0x67],
    }
}

impl MObjOpcode {
    /// The group field of the operation.
    pub fn group(self) -> (r: u8)
        ensures
            r == op_group(self),
    {
        match self {
            MObjOpcode::Nop => 0,
            MObjOpcode::Goto => 0,
            MObjOpcode::Break => 0,
            MObjOpcode::JumpObject => 0,
            MObjOpcode::JumpTitle => 0,
            MObjOpcode::CallObject => 0,
            MObjOpcode::CallTitle => 0,
            MObjOpcode::Resume => 0,
            MObjOpcode::PlayPlaylist => 0,
            MObjOpcode::PlayPlaylistItem => 0,
            MObjOpcode::PlayPlaylistMark => 0,
            MObjOpcode::TerminatePlaylist => 0,
            MObjOpcode::LinkItem => 0,
            MObjOpcode::LinkMark => 0,
            MObjOpcode::Bc => 1,
            MObjOpcode::Eq => 1,
            MObjOpcode::Ne => 1,
            MObjOpcode::Ge => 1,
            MObjOpcode::Gt => 1,
            MObjOpcode::Le => 1,
            MObjOpcode::Lt => 1,
            MObjOpcode::Move => 2,
            MObjOpcode::Swap => 2,
            MObjOpcode::Add => 2,
            MObjOpcode::Sub => 2,
            MObjOpcode::Mul => 2,
            MObjOpcode::Div => 2,
            MObjOpcode::Mod => 2,
            MObjOpcode::Rnd => 2,
            MObjOpcode::And => 2,
            MObjOpcode::Or => 2,
            MObjOpcode::Xor => 2,
            MObjOpcode::Bitset => 2,
            MObjOpcode::Bitclr => 2,
            MObjOpcode::Shl => 2,
            MObjOpcode::Shr => 2,
            MObjOpcode::SetStream => 2,
            MObjOpcode::SetNvTimer => 2,
            MObjOpcode::SetButtonPage => 2,
            MObjOpcode::EnableButton => 2,
            MObjOpcode::DisableButton => 2,
            MObjOpcode::SetSecStream => 2,
            MObjOpcode::PopupOff => 2,
            MObjOpcode::StillOn => 2,
            MObjOpcode::StillOff => 2,
            MObjOpcode::SetOutputMode => 2,
            MObjOpcode::SetStreamSs => 2,
            MObjOpcode::BdPlusMsg => 2,
        }
    }

    /// The sub-group field of the operation.
    pub fn sub_group(self) -> (r: u8)
        ensures
            r == op_sub_group(self),
    {
        match self {
            MObjOpcode::Nop => 0,
            MObjOpcode::Goto => 0,
            MObjOpcode::Break => 0,
            MObjOpcode::JumpObject => 1,
            MObjOpcode::JumpTitle => 1,
            MObjOpcode::CallObject => 1,
            MObjOpcode::CallTitle => 1,
            MObjOpcode::Resume => 1,
            MObjOpcode::PlayPlaylist => 2,
            MObjOpcode::PlayPlaylistItem => 2,
            MObjOpcode::PlayPlaylistMark => 2,
            MObjOpcode::TerminatePlaylist => 2,
            MObjOpcode::LinkItem => 2,
            MObjOpcode::LinkMark => 2,
            MObjOpcode::Bc => 0,
            MObjOpcode::Eq => 0,
            MObjOpcode::Ne => 0,
            MObjOpcode::Ge => 0,
            MObjOpcode::Gt => 0,
            MObjOpcode::Le => 0,
            MObjOpcode::Lt => 0,
            MObjOpcode::Move => 0,
            MObjOpcode::Swap => 0,
            MObjOpcode::Add => 0,
            MObjOpcode::Sub => 0,
            MObjOpcode::Mul => 0,
            MObjOpcode::Div => 0,
            MObjOpcode::Mod => 0,
            MObjOpcode::Rnd => 0,
            MObjOpcode::And => 0,
            MObjOpcode::Or => 0,
            MObjOpcode::Xor => 0,
            MObjOpcode::Bitset => 0,
            MObjOpcode::Bitclr => 0,
            MObjOpcode::Shl => 0,
            MObjOpcode::Shr => 0,
            MObjOpcode::SetStream => 1,
            MObjOpcode::SetNvTimer => 1,
            MObjOpcode::SetButtonPage => 1,
            MObjOpcode::EnableButton => 1,
            MObjOpcode::DisableButton => 1,
            MObjOpcode::SetSecStream => 1,
            MObjOpcode::PopupOff => 1,
            MObjOpcode::StillOn => 1,
            MObjOpcode::StillOff => 1,
            MObjOpcode::SetOutputMode => 1,
            MObjOpcode::SetStreamSs => 1,
            MObjOpcode::BdPlusMsg => 1,
        }
    }

    /// The option value of the operation.
    pub fn option(self) -> (r: u8)
        ensures
            r == op_option(self),
    {
        match self {
            MObjOpcode::Nop => 0,
            MObjOpcode::Goto => 1,
            MObjOpcode::Break => 2,
            MObjOpcode::JumpObject => 0,
            MObjOpcode::JumpTitle => 1,
            MObjOpcode::CallObject => 2,
            MObjOpcode::CallTitle => 3,
            MObjOpcode::Resume => 4,
            MObjOpcode::PlayPlaylist => 0,
            MObjOpcode::PlayPlaylistItem => 1,
            MObjOpcode::PlayPlaylistMark => 2,
            MObjOpcode::TerminatePlaylist => 3,
            MObjOpcode::LinkItem => 4,
            MObjOpcode::LinkMark => 5,
            MObjOpcode::Bc => 1,
            MObjOpcode::Eq => 2,
            MObjOpcode::Ne => 3,
            MObjOpcode::Ge => 4,
            MObjOpcode::Gt => 5,
            MObjOpcode::Le => 6,
            MObjOpcode::Lt => 7,
            MObjOpcode::Move => 1,
            MObjOpcode::Swap => 2,
            MObjOpcode::Add => 3,
            MObjOpcode::Sub => 4,
            MObjOpcode::Mul => 5,
            MObjOpcode::Div => 6,
            MObjOpcode::Mod => 7,
            MObjOpcode::Rnd => 8,
            MObjOpcode::And => 9,
            MObjOpcode::Or => 10,
            MObjOpcode::Xor => 11,
            MObjOpcode::Bitset => 12,
            MObjOpcode::Bitclr => 13,
            MObjOpcode::Shl => 14,
            MObjOpcode::Shr => 15,
            MObjOpcode::SetStream => 1,
            MObjOpcode::SetNvTimer => 2,
            MObjOpcode::SetButtonPage => 3,
            MObjOpcode::EnableButton => 4,
            MObjOpcode::DisableButton => 5,
            MObjOpcode::SetSecStream => 6,
            MObjOpcode::PopupOff => 7,
            MObjOpcode::StillOn => 8,
            MObjOpcode::StillOff => 9,
            MObjOpcode::SetOutputMode => 10,
            MObjOpcode::SetStreamSs => 11,
            MObjOpcode::BdPlusMsg => 16,
        }
    }

    /// The mnemonic of the operation, as ASCII bytes.
    pub fn mnemonic_bytes(self) -> (r: Vec<u8>)
        ensures
            r@ == mnemonic_of(self),
            all_ascii(r@),
    {
        reveal(mnemonic_of);
        match self {
            // nop
            MObjOpcode::Nop => vec![0x6e, 0x6f, 0x70],
            // goto
            MObjOpcode::Goto => vec![0x67, 0x6f, 0x74, 0x6f],
            // break
            MObjOpcode::Break => vec![0x62, 0x72, 0x65, 0x61, 0x6b],
            // jump_object
            MObjOpcode::JumpObject => vec![0x6a, 0x75, 0x6d, 0x70, 0x5f, 0x6f, 0x62, 0x6a, 0x65, 0x63, 0x74],
            // jump_title
            MObjOpcode::JumpTitle => vec![0x6a, 0x75, 0x6d, 0x70, 0x5f, 0x74, 0x69, 0x74, 0x6c, 0x65],
            // call_object
            MObjOpcode::CallObject => vec![0x63, 0x61, 0x6c, 0x6c, 0x5f, 0x6f, 0x62, 0x6a, 0x65, 0x63, 0x74],
            // call_title
            MObjOpcode::CallTitle => vec![0x63, 0x61, 0x6c, 0x6c, 0x5f, 0x74, 0x69, 0x74, 0x6c, 0x65],
            // resume
            MObjOpcode::Resume => vec![0x72, 0x65, 0x73, 0x75, 0x6d, 0x65],
            // play_pl
            MObjOpcode::PlayPlaylist => vec![0x70, 0x6c, 0x61, 0x79, 0x5f, 0x70, 0x6c],
            // play_pl_pi
            MObjOpcode::PlayPlaylistItem => vec![0x70, 0x6c, 0x61, 0x79, 0x5f, 0x70, 0x6c, 0x5f, 0x70, 0x69],
            // play_pl_pm
            MObjOpcode::PlayPlaylistMark => vec![0x70, 0x6c, 0x61, 0x79, 0x5f, 0x70, 0x6c, 0x5f, 0x70, 0x6d],
            // terminate_pl
            MObjOpcode::TerminatePlaylist => vec![0x74, 0x65, 0x72, 0x6d, 0x69, 0x6e, 0x61, 0x74, 0x65, 0x5f, 0x70, 0x6c],
            // link_pi
            MObjOpcode::LinkItem => vec![0x6c, 0x69, 0x6e, 0x6b, 0x5f, 0x70, 0x69],
            // link_mk
            MObjOpcode::LinkMark => vec![0x6c, 0x69, 0x6e, 0x6b, 0x5f, 0x6d, 0x6b],
            // bc
            MObjOpcode::Bc => vec![0x62, 0x63],
            // eq
            MObjOpcode::Eq => vec![0x65, 0x71],
            // ne
            MObjOpcode::Ne => vec![0x6e, 0x65],
            // ge
            MObjOpcode::Ge => vec![0x67, 0x65],
            // gt
            MObjOpcode::Gt => vec![0x67, 0x74],
            // le
            MObjOpcode::Le => vec![0x6c, 0x65],
            // lt
            MObjOpcode::Lt => vec![0x6c, 0x74],
            // move
            MObjOpcode::Move => vec![0x6d, 0x6f, 0x76, 0x65],
            // swap
            MObjOpcode::Swap => vec![0x73, 0x77, 0x61, 0x70],
            // add
            MObjOpcode::Add => vec![0x61, 0x64, 0x64],
            // sub
            MObjOpcode::Sub => vec![0x73, 0x75, 0x62],
            // mul
            MObjOpcode::Mul => vec![0x6d, 0x75, 0x6c],
            // div
            MObjOpcode::Div => vec![0x64, 0x69, 0x76],
            // mod
            MObjOpcode::Mod => vec![0x6d, 0x6f, 0x64],
            // rnd
            MObjOpcode::Rnd => vec![0x72, 0x6e, 0x64],
            // and
            MObjOpcode::And => vec![0x61, 0x6e, 0x64],
            // or
            MObjOpcode::Or => vec![0x6f, 0x72],
            // xor
            MObjOpcode::Xor => vec![0x78, 0x6f, 0x72],
            // bset
            MObjOpcode::Bitset => vec![0x62, 0x73, 0x65, 0x74],
            // bclr
            MObjOpcode::Bitclr => vec![0x62, 0x63, 0x6c, 0x72],
            // shl
            MObjOpcode::Shl => vec![0x73, 0x68, 0x6c],
            // shr
            MObjOpcode::Shr => vec![0x73, 0x68, 0x72],
            // set_stream
            MObjOpcode::SetStream => vec![0x73, 0x65, 0x74, 0x5f, 0x73, 0x74, 0x72, 0x65, 0x61, 0x6d],
            // set_nv_timer
            MObjOpcode::SetNvTimer => vec![0x73, 0x65, 0x74, 0x5f, 0x6e, 0x76, 0x5f, 0x74, 0x69, 0x6d, 0x65, 0x72],
            // set_button_page
            MObjOpcode::SetButtonPage => vec![0x73, 0x65, 0x74, 0x5f, 0x62, 0x75, 0x74, 0x74, 0x6f, 0x6e, 0x5f, 0x70, 0x61, 0x67, 0x65],
            // enable_button
            MObjOpcode::EnableButton => vec![0x65, 0x6e, 0x61, 0x62, 0x6c, 0x65, 0x5f, 0x62, 0x75, 0x74, 0x74, 0x6f, 0x6e],
            // disable_button
            MObjOpcode::DisableButton => vec![0x64, 0x69, 0x73, 0x61, 0x62, 0x6c, 0x65, 0x5f, 0x62, 0x75, 0x74, 0x74, 0x6f, 0x6e],
            // set_sec_stream
            MObjOpcode::SetSecStream => vec![0x73, 0x65, 0x74, 0x5f, 0x73, 0x65, 0x63, 0x5f, 0x73, 0x74, 0x72, 0x65, 0x61, 0x6d],
            // popup_off
            MObjOpcode::PopupOff => vec![0x70, 0x6f, 0x70, 0x75, 0x70, 0x5f, 0x6f, 0x66, 0x66],
            // still_on
            MObjOpcode::StillOn => vec![0x73, 0x74, 0x69, 0x6c, 0x6c, 0x5f, 0x6f, 0x6e],
            // still_off
            MObjOpcode::StillOff => vec![0x73, 0x74, 0x69, 0x6c, 0x6c, 0x5f, 0x6f, 0x66, 0x66],
            // set_output_mode
            MObjOpcode::SetOutputMode => vec![0x73, 0x65, 0x74, 0x5f, 0x6f, 0x75, 0x74, 0x70, 0x75, 0x74, 0x5f, 0x6d, 0x6f, 0x64, 0x65],
            // set_stream_ss
            MObjOpcode::SetStreamSs => vec![0x73, 0x65, 0x74, 0x5f, 0x73, 0x74, 0x72, 0x65, 0x61, 0x6d, 0x5f, 0x73, 0x73],
            // bd_plus_msg
            MObjOpcode::BdPlusMsg => vec![0x62, 0x64, 0x5f, 0x70, 0x6c, 0x75, 0x73, 0x5f, 0x6d, 0x73, 0x67],
        }
    }

    /// The mnemonic of the operation.
    pub fn mnemonic(self) -> (r: &'static str)
        ensures
            r@ == ascii_chars(mnemonic_of(self)),
    {
        reveal(mnemonic_of);
        match self {
            MObjOpcode::Nop => {
                proof {
                    reveal_strlit("nop");
                }
                assert("nop"@ =~= ascii_chars(mnemonic_of(self)));
                "nop"
            },
            MObjOpcode::Goto => {
                proof {
                    reveal_strlit("goto");
                }
                assert("goto"@ =~= ascii_chars(mnemonic_of(self)));
                "goto"
            },
            MObjOpcode::Break => {
                proof {
                    reveal_strlit("break");
                }
                assert("break"@ =~= ascii_chars(mnemonic_of(self)));
                "break"
            },
            MObjOpcode::JumpObject => {
                proof {
                    reveal_strlit("jump_object");
                }
                assert("jump_object"@ =~= ascii_chars(mnemonic_of(self)));
                "jump_object"
            },
            MObjOpcode::JumpTitle => {
                proof {
                    reveal_strlit("jump_title");
                }
                assert("jump_title"@ =~= ascii_chars(mnemonic_of(self)));
                "jump_title"
            },
            MObjOpcode::CallObject => {
                proof {
                    reveal_strlit("call_object");
                }
                assert("call_object"@ =~= ascii_chars(mnemonic_of(self)));
                "call_object"
            },
            MObjOpcode::CallTitle => {
                proof {
                    reveal_strlit("call_title");
                }
                assert("call_title"@ =~= ascii_chars(mnemonic_of(self)));
                "call_title"
            },
            MObjOpcode::Resume => {
                proof {
                    reveal_strlit("resume");
                }
                assert("resume"@ =~= ascii_chars(mnemonic_of(self)));
                "resume"
            },
            MObjOpcode::PlayPlaylist => {
                proof {
                    reveal_strlit("play_pl");
                }
                assert("play_pl"@ =~= ascii_chars(mnemonic_of(self)));
                "play_pl"
            },
            MObjOpcode::PlayPlaylistItem => {
                proof {
                    reveal_strlit("play_pl_pi");
                }
                assert("play_pl_pi"@ =~= ascii_chars(mnemonic_of(self)));
                "play_pl_pi"
            },
            MObjOpcode::PlayPlaylistMark => {
                proof {
                    reveal_strlit("play_pl_pm");
                }
                assert("play_pl_pm"@ =~= ascii_chars(mnemonic_of(self)));
                "play_pl_pm"
            },
            MObjOpcode::TerminatePlaylist => {
                proof {
                    reveal_strlit("terminate_pl");
                }
                assert("terminate_pl"@ =~= ascii_chars(mnemonic_of(self)));
                "terminate_pl"
            },
            MObjOpcode::LinkItem => {
                proof {
                    reveal_strlit("link_pi");
                }
                assert("link_pi"@ =~= ascii_chars(mnemonic_of(self)));
                "link_pi"
            },
            MObjOpcode::LinkMark => {
                proof {
                    reveal_strlit("link_mk");
                }
                assert("link_mk"@ =~= ascii_chars(mnemonic_of(self)));
                "link_mk"
            },
            MObjOpcode::Bc => {
                proof {
                    reveal_strlit("bc");
                }
                assert("bc"@ =~= ascii_chars(mnemonic_of(self)));
                "bc"
            },
            MObjOpcode::Eq => {
                proof {
                    reveal_strlit("eq");
                }
                assert("eq"@ =~= ascii_chars(mnemonic_of(self)));
                "eq"
            },
            MObjOpcode::Ne => {
                proof {
                    reveal_strlit("ne");
                }
                assert("ne"@ =~= ascii_chars(mnemonic_of(self)));
                "ne"
            },
            MObjOpcode::Ge => {
                proof {
                    reveal_strlit("ge");
                }
                assert("ge"@ =~= ascii_chars(mnemonic_of(self)));
                "ge"
            },
            MObjOpcode::Gt => {
                proof {
                    reveal_strlit("gt");
                }
                assert("gt"@ =~= ascii_chars(mnemonic_of(self)));
                "gt"
            },
            MObjOpcode::Le => {
                proof {
                    reveal_strlit("le");
                }
                assert("le"@ =~= ascii_chars(mnemonic_of(self)));
                "le"
            },
            MObjOpcode::Lt => {
                proof {
                    reveal_strlit("lt");
                }
                assert("lt"@ =~= ascii_chars(mnemonic_of(self)));
                "lt"
            },
            MObjOpcode::Move => {
                proof {
                    reveal_strlit("move");
                }
                assert("move"@ =~= ascii_chars(mnemonic_of(self)));
                "move"
            },
            MObjOpcode::Swap => {
                proof {
                    reveal_strlit("swap");
                }
                assert("swap"@ =~= ascii_chars(mnemonic_of(self)));
                "swap"
            },
            MObjOpcode::Add => {
                proof {
                    reveal_strlit("add");
                }
                assert("add"@ =~= ascii_chars(mnemonic_of(self)));
                "add"
            },
            MObjOpcode::Sub => {
                proof {
                    reveal_strlit("sub");
                }
                assert("sub"@ =~= ascii_chars(mnemonic_of(self)));
                "sub"
            },
            MObjOpcode::Mul => {
                proof {
                    reveal_strlit("mul");
                }
                assert("mul"@ =~= ascii_chars(mnemonic_of(self)));
                "mul"
            },
            MObjOpcode::Div => {
                proof {
                    reveal_strlit("div");
                }
                assert("div"@ =~= ascii_chars(mnemonic_of(self)));
                "div"
            },
            MObjOpcode::Mod => {
                proof {
                    reveal_strlit("mod");
                }
                assert("mod"@ =~= ascii_chars(mnemonic_of(self)));
                "mod"
            },
            MObjOpcode::Rnd => {
                proof {
                    reveal_strlit("rnd");
                }
                assert("rnd"@ =~= ascii_chars(mnemonic_of(self)));
                "rnd"
            },
            MObjOpcode::And => {
                proof {
                    reveal_strlit("and");
                }
                assert("and"@ =~= ascii_chars(mnemonic_of(self)));
                "and"
            },
            MObjOpcode::Or => {
                proof {
                    reveal_strlit("or");
                }
                assert("or"@ =~= ascii_chars(mnemonic_of(self)));
                "or"
            },
            MObjOpcode::Xor => {
                proof {
                    reveal_strlit("xor");
                }
                assert("xor"@ =~= ascii_chars(mnemonic_of(self)));
                "xor"
            },
            MObjOpcode::Bitset => {
                proof {
                    reveal_strlit("bset");
                }
                assert("bset"@ =~= ascii_chars(mnemonic_of(self)));
                "bset"
            },
            MObjOpcode::Bitclr => {
                proof {
                    reveal_strlit("bclr");
                }
                assert("bclr"@ =~= ascii_chars(mnemonic_of(self)));
                "bclr"
            },
            MObjOpcode::Shl => {
                proof {
                    reveal_strlit("shl");
                }
                assert("shl"@ =~= ascii_chars(mnemonic_of(self)));
                "shl"
            },
            MObjOpcode::Shr => {
                proof {
                    reveal_strlit("shr");
                }
                assert("shr"@ =~= ascii_chars(mnemonic_of(self)));
                "shr"
            },
            MObjOpcode::SetStream => {
                proof {
                    reveal_strlit("set_stream");
                }
                assert("set_stream"@ =~= ascii_chars(mnemonic_of(self)));
                "set_stream"
            },
            MObjOpcode::SetNvTimer => {
                proof {
                    reveal_strlit("set_nv_timer");
                }
                assert("set_nv_timer"@ =~= ascii_chars(mnemonic_of(self)));
                "set_nv_timer"
            },
            MObjOpcode::SetButtonPage => {
                proof {
                    reveal_strlit("set_button_page");
                }
                assert("set_button_page"@ =~= ascii_chars(mnemonic_of(self)));
                "set_button_page"
            },
            MObjOpcode::EnableButton => {
                proof {
                    reveal_strlit("enable_button");
                }
                assert("enable_button"@ =~= ascii_chars(mnemonic_of(self)));
                "enable_button"
            },
            MObjOpcode::DisableButton => {
                proof {
                    reveal_strlit("disable_button");
                }
                assert("disable_button"@ =~= ascii_chars(mnemonic_of(self)));
                "disable_button"
            },
            MObjOpcode::SetSecStream => {
                proof {
                    reveal_strlit("set_sec_stream");
                }
                assert("set_sec_stream"@ =~= ascii_chars(mnemonic_of(self)));
                "set_sec_stream"
            },
            MObjOpcode::PopupOff => {
                proof {
                    reveal_strlit("popup_off");
                }
                assert("popup_off"@ =~= ascii_chars(mnemonic_of(self)));
                "popup_off"
            },
            MObjOpcode::StillOn => {
                proof {
                    reveal_strlit("still_on");
                }
                assert("still_on"@ =~= ascii_chars(mnemonic_of(self)));
                "still_on"
            },
            MObjOpcode::StillOff => {
                proof {
                    reveal_strlit("still_off");
                }
                assert("still_off"@ =~= ascii_chars(mnemonic_of(self)));
                "still_off"
            },
            MObjOpcode::SetOutputMode => {
                proof {
                    reveal_strlit("set_output_mode");
                }
                assert("set_output_mode"@ =~= ascii_chars(mnemonic_of(self)));
                "set_output_mode"
            },
            MObjOpcode::SetStreamSs => {
                proof {
                    reveal_strlit("set_stream_ss");
                }
                assert("set_stream_ss"@ =~= ascii_chars(mnemonic_of(self)));
                "set_stream_ss"
            },
            MObjOpcode::BdPlusMsg => {
                proof {
                    reveal_strlit("bd_plus_msg");
                }
                assert("bd_plus_msg"@ =~= ascii_chars(mnemonic_of(self)));
                "bd_plus_msg"
            },
        }
    }
}

/// ASCII bytes as characters.
pub open spec fn ascii_chars(b: Seq<u8>) -> Seq<char> {
    b.map_values(|x: u8| x as char)
}

/// The operation that `(group, sub_group, option)` selects, or the first field that selects
/// none. Comparisons ignore the sub-group.
pub open spec fn lookup_op(grp: u8, sub: u8, branch: u8, cmp: u8, set: u8) -> Result<MObjOpcode, MObjCmdErrorDetails> {
    if grp == 0 {
        if sub == 0 {
            if branch == 0 { Ok(MObjOpcode::Nop) }
            else if branch == 1 { Ok(MObjOpcode::Goto) }
            else if branch == 2 { Ok(MObjOpcode::Break) }
            else { Err(MObjCmdErrorDetails::UnknownGotoInstruction(branch)) }
        } else if sub == 1 {
            if branch == 0 { Ok(MObjOpcode::JumpObject) }
            else if branch == 1 { Ok(MObjOpcode::JumpTitle) }
            else if branch == 2 { Ok(MObjOpcode::CallObject) }
            else if branch == 3 { Ok(MObjOpcode::CallTitle) }
            else if branch == 4 { Ok(MObjOpcode::Resume) }
            else { Err(MObjCmdErrorDetails::UnknownJumpInstruction(branch)) }
        } else if sub == 2 {
            if branch == 0 { Ok(MObjOpcode::PlayPlaylist) }
            else if branch == 1 { Ok(MObjOpcode::PlayPlaylistItem) }
            else if branch == 2 { Ok(MObjOpcode::PlayPlaylistMark) }
            else if branch == 3 { Ok(MObjOpcode::TerminatePlaylist) }
            else if branch == 4 { Ok(MObjOpcode::LinkItem) }
            else if branch == 5 { Ok(MObjOpcode::LinkMark) }
            else { Err(MObjCmdErrorDetails::UnknownPlayInstruction(branch)) }
        } else {
            Err(MObjCmdErrorDetails::UnknownBranchSubGroup(sub))
        }
    } else if grp == 1 {
        if cmp == 1 { Ok(MObjOpcode::Bc) }
        else if cmp == 2 { Ok(MObjOpcode::Eq) }
        else if cmp == 3 { Ok(MObjOpcode::Ne) }
        else if cmp == 4 { Ok(MObjOpcode::Ge) }
        else if cmp == 5 { Ok(MObjOpcode::Gt) }
        else if cmp == 6 { Ok(MObjOpcode::Le) }
        else if cmp == 7 { Ok(MObjOpcode::Lt) }
        else { Err(MObjCmdErrorDetails::UnknownCmpInstruction(cmp)) }
    } else if grp == 2 {
        if sub == 0 {
            if set == 1 { Ok(MObjOpcode::Move) }
            else if set == 2 { Ok(MObjOpcode::Swap) }
            else if set == 3 { Ok(MObjOpcode::Add) }
            else if set == 4 { Ok(MObjOpcode::Sub) }
            else if set == 5 { Ok(MObjOpcode::Mul) }
            else if set == 6 { Ok(MObjOpcode::Div) }
            else if set == 7 { Ok(MObjOpcode::Mod) }
            else if set == 8 { Ok(MObjOpcode::Rnd) }
            else if set == 9 { Ok(MObjOpcode::And) }
            else if set == 10 { Ok(MObjOpcode::Or) }
            else if set == 11 { Ok(MObjOpcode::Xor) }
            else if set == 12 { Ok(MObjOpcode::Bitset) }
            else if set == 13 { Ok(MObjOpcode::Bitclr) }
            else if set == 14 { Ok(MObjOpcode::Shl) }
            else if set == 15 { Ok(MObjOpcode::Shr) }
            else { Err(MObjCmdErrorDetails::UnknownSetInstruction(set)) }
        } else if sub == 1 {
            if set == 1 { Ok(MObjOpcode::SetStream) }
            else if set == 2 { Ok(MObjOpcode::SetNvTimer) }
            else if set == 3 { Ok(MObjOpcode::SetButtonPage) }
            else if set == 4 { Ok(MObjOpcode::EnableButton) }
            else if set == 5 { Ok(MObjOpcode::DisableButton) }
            else if set == 6 { Ok(MObjOpcode::SetSecStream) }
            else if set == 7 { Ok(MObjOpcode::PopupOff) }
            else if set == 8 { Ok(MObjOpcode::StillOn) }
            else if set == 9 { Ok(MObjOpcode::StillOff) }
            else if set == 10 { Ok(MObjOpcode::SetOutputMode) }
            else if set == 11 { Ok(MObjOpcode::SetStreamSs) }
            else if set == 16 { Ok(MObjOpcode::BdPlusMsg) }
            else { Err(MObjCmdErrorDetails::UnknownSetSystemInstruction(set)) }
        } else {
            Err(MObjCmdErrorDetails::UnknownSetSubGroup(sub))
        }
    } else {
        Err(MObjCmdErrorDetails::UnknownMObjGroup(grp))
    }
}

/// Resolves `(group, sub_group, option)` to an operation.
pub fn lookup_opcode(grp: u8, sub: u8, branch: u8, cmp: u8, set: u8) -> (r: Result<MObjOpcode, MObjCmdErrorDetails>)
    ensures
        r == lookup_op(grp, sub, branch, cmp, set),
{
    if grp == 0 {
        if sub == 0 {
            if branch == 0 { Ok(MObjOpcode::Nop) }
            else if branch == 1 { Ok(MObjOpcode::Goto) }
            else if branch == 2 { Ok(MObjOpcode::Break) }
            else { Err(MObjCmdErrorDetails::UnknownGotoInstruction(branch)) }
        } else if sub == 1 {
            if branch == 0 { Ok(MObjOpcode::JumpObject) }
            else if branch == 1 { Ok(MObjOpcode::JumpTitle) }
            else if branch == 2 { Ok(MObjOpcode::CallObject) }
            else if branch == 3 { Ok(MObjOpcode::CallTitle) }
            else if branch == 4 { Ok(MObjOpcode::Resume) }
            else { Err(MObjCmdErrorDetails::UnknownJumpInstruction(branch)) }
        } else if sub == 2 {
            if branch == 0 { Ok(MObjOpcode::PlayPlaylist) }
            else if branch == 1 { Ok(MObjOpcode::PlayPlaylistItem) }
            else if branch == 2 { Ok(MObjOpcode::PlayPlaylistMark) }
            else if branch == 3 { Ok(MObjOpcode::TerminatePlaylist) }
            else if branch == 4 { Ok(MObjOpcode::LinkItem) }
            else if branch == 5 { Ok(MObjOpcode::LinkMark) }
            else { Err(MObjCmdErrorDetails::UnknownPlayInstruction(branch)) }
        } else {
            Err(MObjCmdErrorDetails::UnknownBranchSubGroup(sub))
        }
    } else if grp == 1 {
        if cmp == 1 { Ok(MObjOpcode::Bc) }
        else if cmp == 2 { Ok(MObjOpcode::Eq) }
        else if cmp == 3 { Ok(MObjOpcode::Ne) }
        else if cmp == 4 { Ok(MObjOpcode::Ge) }
        else if cmp == 5 { Ok(MObjOpcode::Gt) }
        else if cmp == 6 { Ok(MObjOpcode::Le) }
        else if cmp == 7 { Ok(MObjOpcode::Lt) }
        else { Err(MObjCmdErrorDetails::UnknownCmpInstruction(cmp)) }
    } else if grp == 2 {
        if sub == 0 {
            if set == 1 { Ok(MObjOpcode::Move) }
            else if set == 2 { Ok(MObjOpcode::Swap) }
            else if set == 3 { Ok(MObjOpcode::Add) }
            else if set == 4 { Ok(MObjOpcode::Sub) }
            else if set == 5 { Ok(MObjOpcode::Mul) }
            else if set == 6 { Ok(MObjOpcode::Div) }
            else if set == 7 { Ok(MObjOpcode::Mod) }
            else if set == 8 { Ok(MObjOpcode::Rnd) }
            else if set == 9 { Ok(MObjOpcode::And) }
            else if set == 10 { Ok(MObjOpcode::Or) }
            else if set == 11 { Ok(MObjOpcode::Xor) }
            else if set == 12 { Ok(MObjOpcode::Bitset) }
            else if set == 13 { Ok(MObjOpcode::Bitclr) }
            else if set == 14 { Ok(MObjOpcode::Shl) }
            else if set == 15 { Ok(MObjOpcode::Shr) }
            else { Err(MObjCmdErrorDetails::UnknownSetInstruction(set)) }
        } else if sub == 1 {
            if set == 1 { Ok(MObjOpcode::SetStream) }
            else if set == 2 { Ok(MObjOpcode::SetNvTimer) }
            else if set == 3 { Ok(MObjOpcode::SetButtonPage) }
            else if set == 4 { Ok(MObjOpcode::EnableButton) }
            else if set == 5 { Ok(MObjOpcode::DisableButton) }
            else if set == 6 { Ok(MObjOpcode::SetSecStream) }
            else if set == 7 { Ok(MObjOpcode::PopupOff) }
            else if set == 8 { Ok(MObjOpcode::StillOn) }
            else if set == 9 { Ok(MObjOpcode::StillOff) }
            else if set == 10 { Ok(MObjOpcode::SetOutputMode) }
            else if set == 11 { Ok(MObjOpcode::SetStreamSs) }
            else if set == 16 { Ok(MObjOpcode::BdPlusMsg) }
            else { Err(MObjCmdErrorDetails::UnknownSetSystemInstruction(set)) }
        } else {
            Err(MObjCmdErrorDetails::UnknownSetSubGroup(sub))
        }
    } else {
        Err(MObjCmdErrorDetails::UnknownMObjGroup(grp))
    }
}

/// The operation whose mnemonic is `m`, if any.
#[verifier::opaque]
pub open spec fn op_named(m: Seq<u8>) -> Option<MObjOpcode> {
    if m == mnemonic_of(MObjOpcode::Nop) {
        Some(MObjOpcode::Nop)
    } else if m == mnemonic_of(MObjOpcode::Goto) {
        Some(MObjOpcode::Goto)
    } else if m == mnemonic_of(MObjOpcode::Break) {
        Some(MObjOpcode::Break)
    } else if m == mnemonic_of(MObjOpcode::JumpObject) {
        Some(MObjOpcode::JumpObject)
    } else if m == mnemonic_of(MObjOpcode::JumpTitle) {
        Some(MObjOpcode::JumpTitle)
    } else if m == mnemonic_of(MObjOpcode::CallObject) {
        Some(MObjOpcode::CallObject)
    } else if m == mnemonic_of(MObjOpcode::CallTitle) {
        Some(MObjOpcode::CallTitle)
    } else if m == mnemonic_of(MObjOpcode::Resume) {
        Some(MObjOpcode::Resume)
    } else if m == mnemonic_of(MObjOpcode::PlayPlaylist) {
        Some(MObjOpcode::PlayPlaylist)
    } else if m == mnemonic_of(MObjOpcode::PlayPlaylistItem) {
        Some(MObjOpcode::PlayPlaylistItem)
    } else if m == mnemonic_of(MObjOpcode::PlayPlaylistMark) {
        Some(MObjOpcode::PlayPlaylistMark)
    } else if m == mnemonic_of(MObjOpcode::TerminatePlaylist) {
        Some(MObjOpcode::TerminatePlaylist)
    } else if m == mnemonic_of(MObjOpcode::LinkItem) {
        Some(MObjOpcode::LinkItem)
    } else if m == mnemonic_of(MObjOpcode::LinkMark) {
        Some(MObjOpcode::LinkMark)
    } else if m == mnemonic_of(MObjOpcode::Bc) {
        Some(MObjOpcode::Bc)
    } else if m == mnemonic_of(MObjOpcode::Eq) {
        Some(MObjOpcode::Eq)
    } else if m == mnemonic_of(MObjOpcode::Ne) {
        Some(MObjOpcode::Ne)
    } else if m == mnemonic_of(MObjOpcode::Ge) {
        Some(MObjOpcode::Ge)
    } else if m == mnemonic_of(MObjOpcode::Gt) {
        Some(MObjOpcode::Gt)
    } else if m == mnemonic_of(MObjOpcode::Le) {
        Some(MObjOpcode::Le)
    } else if m == mnemonic_of(MObjOpcode::Lt) {
        Some(MObjOpcode::Lt)
    } else if m == mnemonic_of(MObjOpcode::Move) {
        Some(MObjOpcode::Move)
    } else if m == mnemonic_of(MObjOpcode::Swap) {
        Some(MObjOpcode::Swap)
    } else if m == mnemonic_of(MObjOpcode::Add) {
        Some(MObjOpcode::Add)
    } else if m == mnemonic_of(MObjOpcode::Sub) {
        Some(MObjOpcode::Sub)
    } else if m == mnemonic_of(MObjOpcode::Mul) {
        Some(MObjOpcode::Mul)
    } else if m == mnemonic_of(MObjOpcode::Div) {
        Some(MObjOpcode::Div)
    } else if m == mnemonic_of(MObjOpcode::Mod) {
        Some(MObjOpcode::Mod)
    } else if m == mnemonic_of(MObjOpcode::Rnd) {
        Some(MObjOpcode::Rnd)
    } else if m == mnemonic_of(MObjOpcode::And) {
        Some(MObjOpcode::And)
    } else if m == mnemonic_of(MObjOpcode::Or) {
        Some(MObjOpcode::Or)
    } else if m == mnemonic_of(MObjOpcode::Xor) {
        Some(MObjOpcode::Xor)
    } else if m == mnemonic_of(MObjOpcode::Bitset) {
        Some(MObjOpcode::Bitset)
    } else if m == mnemonic_of(MObjOpcode::Bitclr) {
        Some(MObjOpcode::Bitclr)
    } else if m == mnemonic_of(MObjOpcode::Shl) {
        Some(MObjOpcode::Shl)
    } else if m == mnemonic_of(MObjOpcode::Shr) {
        Some(MObjOpcode::Shr)
    } else if m == mnemonic_of(MObjOpcode::SetStream) {
        Some(MObjOpcode::SetStream)
    } else if m == mnemonic_of(MObjOpcode::SetNvTimer) {
        Some(MObjOpcode::SetNvTimer)
    } else if m == mnemonic_of(MObjOpcode::SetButtonPage) {
        Some(MObjOpcode::SetButtonPage)
    } else if m == mnemonic_of(MObjOpcode::EnableButton) {
        Some(MObjOpcode::EnableButton)
    } else if m == mnemonic_of(MObjOpcode::DisableButton) {
        Some(MObjOpcode::DisableButton)
    } else if m == mnemonic_of(MObjOpcode::SetSecStream) {
        Some(MObjOpcode::SetSecStream)
    } else if m == mnemonic_of(MObjOpcode::PopupOff) {
        Some(MObjOpcode::PopupOff)
    } else if m == mnemonic_of(MObjOpcode::StillOn) {
        Some(MObjOpcode::StillOn)
    } else if m == mnemonic_of(MObjOpcode::StillOff) {
        Some(MObjOpcode::StillOff)
    } else if m == mnemonic_of(MObjOpcode::SetOutputMode) {
        Some(MObjOpcode::SetOutputMode)
    } else if m == mnemonic_of(MObjOpcode::SetStreamSs) {
        Some(MObjOpcode::SetStreamSs)
    } else if m == mnemonic_of(MObjOpcode::BdPlusMsg) {
        Some(MObjOpcode::BdPlusMsg)
    } else {
        None
    }
}

/// Looks up an operation by mnemonic.
pub fn opcode_named(m: &[u8]) -> (r: Option<MObjOpcode>)
    ensures
        r == op_named(m@),
{
    reveal(op_named);
    if bytes_equal(m, MObjOpcode::Nop.mnemonic_bytes().as_slice()) {
        Some(MObjOpcode::Nop)
    } else if bytes_equal(m, MObjOpcode::Goto.mnemonic_bytes().as_slice()) {
        Some(MObjOpcode::Goto)
    } else if bytes_equal(m, MObjOpcode::Break.mnemonic_bytes().as_slice()) {
        Some(MObjOpcode::Break)
    } else if bytes_equal(m, MObjOpcode::JumpObject.mnemonic_bytes().as_slice()) {
        Some(MObjOpcode::JumpObject)
    } else if bytes_equal(m, MObjOpcode::JumpTitle.mnemonic_bytes().as_slice()) {
        Some(MObjOpcode::JumpTitle)
    } else if bytes_equal(m, MObjOpcode::CallObject.mnemonic_bytes().as_slice()) {
        Some(MObjOpcode::CallObject)
    } else if bytes_equal(m, MObjOpcode::CallTitle.mnemonic_bytes().as_slice()) {
        Some(MObjOpcode::CallTitle)
    } else if bytes_equal(m, MObjOpcode::Resume.mnemonic_bytes().as_slice()) {
        Some(MObjOpcode::Resume)
    } else if bytes_equal(m, MObjOpcode::PlayPlaylist.mnemonic_bytes().as_slice()) {
        Some(MObjOpcode::PlayPlaylist)
    } else if bytes_equal(m, MObjOpcode::PlayPlaylistItem.mnemonic_bytes().as_slice()) {
        Some(MObjOpcode::PlayPlaylistItem)
    } else if bytes_equal(m, MObjOpcode::PlayPlaylistMark.mnemonic_bytes().as_slice()) {
        Some(MObjOpcode::PlayPlaylistMark)
    } else if bytes_equal(m, MObjOpcode::TerminatePlaylist.mnemonic_bytes().as_slice()) {
        Some(MObjOpcode::TerminatePlaylist)
    } else if bytes_equal(m, MObjOpcode::LinkItem.mnemonic_bytes().as_slice()) {
        Some(MObjOpcode::LinkItem)
    } else if bytes_equal(m, MObjOpcode::LinkMark.mnemonic_bytes().as_slice()) {
        Some(MObjOpcode::LinkMark)
    } else if bytes_equal(m, MObjOpcode::Bc.mnemonic_bytes().as_slice()) {
        Some(MObjOpcode::Bc)
    } else if bytes_equal(m, MObjOpcode::Eq.mnemonic_bytes().as_slice()) {
        Some(MObjOpcode::Eq)
    } else if bytes_equal(m, MObjOpcode::Ne.mnemonic_bytes().as_slice()) {
        Some(MObjOpcode::Ne)
    } else if bytes_equal(m, MObjOpcode::Ge.mnemonic_bytes().as_slice()) {
        Some(MObjOpcode::Ge)
    } else if bytes_equal(m, MObjOpcode::Gt.mnemonic_bytes().as_slice()) {
        Some(MObjOpcode::Gt)
    } else if bytes_equal(m, MObjOpcode::Le.mnemonic_bytes().as_slice()) {
        Some(MObjOpcode::Le)
    } else if bytes_equal(m, MObjOpcode::Lt.mnemonic_bytes().as_slice()) {
        Some(MObjOpcode::Lt)
    } else if bytes_equal(m, MObjOpcode::Move.mnemonic_bytes().as_slice()) {
        Some(MObjOpcode::Move)
    } else if bytes_equal(m, MObjOpcode::Swap.mnemonic_bytes().as_slice()) {
        Some(MObjOpcode::Swap)
    } else if bytes_equal(m, MObjOpcode::Add.mnemonic_bytes().as_slice()) {
        Some(MObjOpcode::Add)
    } else if bytes_equal(m, MObjOpcode::Sub.mnemonic_bytes().as_slice()) {
        Some(MObjOpcode::Sub)
    } else if bytes_equal(m, MObjOpcode::Mul.mnemonic_bytes().as_slice()) {
        Some(MObjOpcode::Mul)
    } else if bytes_equal(m, MObjOpcode::Div.mnemonic_bytes().as_slice()) {
        Some(MObjOpcode::Div)
    } else if bytes_equal(m, MObjOpcode::Mod.mnemonic_bytes().as_slice()) {
        Some(MObjOpcode::Mod)
    } else if bytes_equal(m, MObjOpcode::Rnd.mnemonic_bytes().as_slice()) {
        Some(MObjOpcode::Rnd)
    } else if bytes_equal(m, MObjOpcode::And.mnemonic_bytes().as_slice()) {
        Some(MObjOpcode::And)
    } else if bytes_equal(m, MObjOpcode::Or.mnemonic_bytes().as_slice()) {
        Some(MObjOpcode::Or)
    } else if bytes_equal(m, MObjOpcode::Xor.mnemonic_bytes().as_slice()) {
        Some(MObjOpcode::Xor)
    } else if bytes_equal(m, MObjOpcode::Bitset.mnemonic_bytes().as_slice()) {
        Some(MObjOpcode::Bitset)
    } else if bytes_equal(m, MObjOpcode::Bitclr.mnemonic_bytes().as_slice()) {
        Some(MObjOpcode::Bitclr)
    } else if bytes_equal(m, MObjOpcode::Shl.mnemonic_bytes().as_slice()) {
        Some(MObjOpcode::Shl)
    } else if bytes_equal(m, MObjOpcode::Shr.mnemonic_bytes().as_slice()) {
        Some(MObjOpcode::Shr)
    } else if bytes_equal(m, MObjOpcode::SetStream.mnemonic_bytes().as_slice()) {
        Some(MObjOpcode::SetStream)
    } else if bytes_equal(m, MObjOpcode::SetNvTimer.mnemonic_bytes().as_slice()) {
        Some(MObjOpcode::SetNvTimer)
    } else if bytes_equal(m, MObjOpcode::SetButtonPage.mnemonic_bytes().as_slice()) {
        Some(MObjOpcode::SetButtonPage)
    } else if bytes_equal(m, MObjOpcode::EnableButton.mnemonic_bytes().as_slice()) {
        Some(MObjOpcode::EnableButton)
    } else if bytes_equal(m, MObjOpcode::DisableButton.mnemonic_bytes().as_slice()) {
        Some(MObjOpcode::DisableButton)
    } else if bytes_equal(m, MObjOpcode::SetSecStream.mnemonic_bytes().as_slice()) {
        Some(MObjOpcode::SetSecStream)
    } else if bytes_equal(m, MObjOpcode::PopupOff.mnemonic_bytes().as_slice()) {
        Some(MObjOpcode::PopupOff)
    } else if bytes_equal(m, MObjOpcode::StillOn.mnemonic_bytes().as_slice()) {
        Some(MObjOpcode::StillOn)
    } else if bytes_equal(m, MObjOpcode::StillOff.mnemonic_bytes().as_slice()) {
        Some(MObjOpcode::StillOff)
    } else if bytes_equal(m, MObjOpcode::SetOutputMode.mnemonic_bytes().as_slice()) {
        Some(MObjOpcode::SetOutputMode)
    } else if bytes_equal(m, MObjOpcode::SetStreamSs.mnemonic_bytes().as_slice()) {
        Some(MObjOpcode::SetStreamSs)
    } else if bytes_equal(m, MObjOpcode::BdPlusMsg.mnemonic_bytes().as_slice()) {
        Some(MObjOpcode::BdPlusMsg)
    } else {
        None
    }
}

/// Whether two byte slices are equal.
pub fn bytes_equal(a: &[u8], b: &[u8]) -> (r: bool)
    ensures
        r == (a@ == b@),
{
    if a.len() != b.len() {
        return false;
    }
    let mut i: usize = 0;
    while i < a.len()
        invariant
            a@.len() == b@.len(),
            i <= a@.len(),
            a@.subrange(0, i as int) == b@.subrange(0, i as int),
        decreases a@.len() - i,
    {
        if a[i] != b[i] {
            assert(a@[i as int] != b@[i as int]);
            return false;
        }
        i = i + 1;
        assert(a@.subrange(0, i as int) =~= a@.subrange(0, i - 1) + seq![a@[i - 1]]);
        assert(b@.subrange(0, i as int) =~= b@.subrange(0, i - 1) + seq![b@[i - 1]]);
    }
    assert(a@ =~= a@.subrange(0, i as int));
    assert(b@ =~= b@.subrange(0, i as int));
    true
}

/// The fields of a command's 32-bit instruction word, most significant first: 3-bit operand
/// count, 2-bit group, 3-bit sub-group, two immediate flags, 2 skipped bits, 4-bit branch
/// option, 4 skipped, 4-bit compare option, 3 skipped, 5-bit set option.
#[derive(Debug, Clone, Copy, PartialEq, Eq, Structural)]
pub struct MObjInstruction {
    pub op_cnt: u8,
    pub grp: u8,
    pub sub_grp: u8,
    pub imm_op1: bool,
    pub imm_op2: bool,
    pub branch_opt: u8,
    pub cmp_opt: u8,
    pub set_opt: u8,
}

/// The fields that an instruction word holds.
pub open spec fn inst_of(w: u32) -> MObjInstruction {
    MObjInstruction {
        op_cnt: (w >> 29u32) as u8,
        grp: ((w >> 27u32) & 3) as u8,
        sub_grp: ((w >> 24u32) & 7) as u8,
        imm_op1: (w >> 23u32) & 1 == 1,
        imm_op2: (w >> 22u32) & 1 == 1,
        branch_opt: ((w >> 16u32) & 0xf) as u8,
        cmp_opt: ((w >> 8u32) & 0xf) as u8,
        set_opt: (w & 0x1f) as u8,
    }
}

/// The instruction word of some fields, skipped bits zero.
pub open spec fn word_of(i: MObjInstruction) -> u32 {
    ((i.op_cnt as u32) << 29u32) | ((i.grp as u32) << 27u32) | ((i.sub_grp as u32) << 24u32) | ((
    i.imm_op1 as u32) << 23u32) | ((i.imm_op2 as u32) << 22u32) | ((i.branch_opt as u32)
        << 16u32) | ((i.cmp_opt as u32) << 8u32) | (i.set_opt as u32)
}

impl MObjInstruction {
    /// Every field fits its width.
    pub open spec fn wf(&self) -> bool {
        self.op_cnt < 8 && self.grp < 4 && self.sub_grp < 8 && self.branch_opt < 16 && self.cmp_opt
            < 16 && self.set_opt < 32
    }

    /// Decodes an instruction word.
    pub fn from_word(w: u32) -> (r: MObjInstruction)
        ensures
            r == inst_of(w),
            r.wf(),
    {
        assert((w >> 29u32) < 8 && (w >> 27u32) & 3 < 4 && (w >> 24u32) & 7 < 8 && (w >> 16u32) & 0xf
            < 16 && (w >> 8u32) & 0xf < 16 && w & 0x1f < 32) by (bit_vector);
        MObjInstruction {
            op_cnt: (w >> 29u32) as u8,
            grp: ((w >> 27u32) & 3) as u8,
            sub_grp: ((w >> 24u32) & 7) as u8,
            imm_op1: (w >> 23u32) & 1 == 1,
            imm_op2: (w >> 22u32) & 1 == 1,
            branch_opt: ((w >> 16u32) & 0xf) as u8,
            cmp_opt: ((w >> 8u32) & 0xf) as u8,
            set_opt: (w & 0x1f) as u8,
        }
    }

    /// Encodes the fields as an instruction word.
    pub fn to_word(&self) -> (r: u32)
        ensures
            r == word_of(*self),
    {
        ((self.op_cnt as u32) << 29u32) | ((self.grp as u32) << 27u32) | ((self.sub_grp as u32)
            << 24u32) | ((self.imm_op1 as u32) << 23u32) | ((self.imm_op2 as u32) << 22u32) | ((
        self.branch_opt as u32) << 16u32) | ((self.cmp_opt as u32) << 8u32) | (self.set_opt as u32)
    }
}

/// Decoding the word of well-formed fields gives the fields back.
pub proof fn lemma_inst_word_round_trip(i: MObjInstruction)
    requires
        i.wf(),
    ensures
        inst_of(word_of(i)) == i,
{
    let a = i.op_cnt as u32;
    let b = i.grp as u32;
    let c = i.sub_grp as u32;
    let d = i.imm_op1 as u32;
    let e = i.imm_op2 as u32;
    let f = i.branch_opt as u32;
    let g = i.cmp_opt as u32;
    let h = i.set_opt as u32;
    assert(d <= 1 && e <= 1);
    let w = word_of(i);
    assert(w == (a << 29u32) | (b << 27u32) | (c << 24u32) | (d << 23u32) | (e << 22u32) | (f
        << 16u32) | (g << 8u32) | h);
    assert(w >> 29u32 == a && (w >> 27u32) & 3 == b && (w >> 24u32) & 7 == c && (w >> 23u32) & 1
        == d && (w >> 22u32) & 1 == e && (w >> 16u32) & 0xf == f && (w >> 8u32) & 0xf == g && w
        & 0x1f == h) by (bit_vector)
        requires
            a < 8 && b < 4 && c < 8 && d <= 1 && e <= 1 && f < 16 && g < 16 && h < 32,
            w == (a << 29u32) | (b << 27u32) | (c << 24u32) | (d << 23u32) | (e << 22u32) | (f
                << 16u32) | (g << 8u32) | h,
    ;
}

/// A command operand: a general-purpose register, a player status register, or an immediate.
#[derive(Debug, Clone, Copy, PartialEq, Eq, Structural)]
pub enum MObjOperand {
    Gpr(u32),
    Psr(u32),
    Imm(u32),
}

/// The operand that a 32-bit operand word stands for: the whole word where it is immediate,
/// else a PSR number (low 7 bits) where bit 31 is set, else a GPR number (low 12 bits).
pub open spec fn operand_of(v: u32, is_imm: bool) -> MObjOperand {
    if is_imm {
        MObjOperand::Imm(v)
    } else if v & 0x80000000 == 0 {
        MObjOperand::Gpr(v & 0xfff)
    } else {
        MObjOperand::Psr(v & 0x7f)
    }
}

/// The operand word of an operand.
pub open spec fn operand_word(op: MObjOperand) -> u32 {
    match op {
        MObjOperand::Gpr(v) => v,
        MObjOperand::Psr(v) => 0x80000000 | v,
        MObjOperand::Imm(v) => v,
    }
}

impl MObjOperand {
    /// Resolves an operand word.
    pub fn new(v: u32, is_imm: bool) -> (r: MObjOperand)
        ensures
            r == operand_of(v, is_imm),
    {
        if is_imm {
            MObjOperand::Imm(v)
        } else if v & 0x80000000 == 0 {
            MObjOperand::Gpr(v & 0xfff)
        } else {
            MObjOperand::Psr(v & 0x7f)
        }
    }

    /// The operand word.
    pub fn into_val(self) -> (r: u32)
        ensures
            r == operand_word(self),
    {
        match self {
            MObjOperand::Gpr(v) => v,
            MObjOperand::Psr(v) => 0x80000000 | v,
            MObjOperand::Imm(v) => v,
        }
    }

    /// Whether the operand is immediate.
    pub fn is_imm(&self) -> (r: bool)
        ensures
            r == (*self is Imm),
    {
        match self {
            MObjOperand::Imm(_) => true,
            _ => false,
        }
    }
}

/// A Movie Object command: instruction word and two operand words.
#[derive(Debug, Clone, Copy, PartialEq, Eq, Structural)]
pub struct MObjCmd {
    pub inst: MObjInstruction,
    pub dst: u32,
    pub src: u32,
}

/// The operation a command selects.
pub open spec fn cmd_opcode_of(c: MObjCmd) -> Result<MObjOpcode, MObjCmdErrorDetails> {
    lookup_op(c.inst.grp, c.inst.sub_grp, c.inst.branch_opt, c.inst.cmp_opt, c.inst.set_opt)
}

/// The command that twelve bytes encode: three big-endian words.
pub open spec fn cmd_of_bytes(b: Seq<u8>) -> MObjCmd {
    MObjCmd {
        inst: inst_of(be32(b) as u32),
        dst: be32(b.subrange(4, 8)) as u32,
        src: be32(b.subrange(8, 12)) as u32,
    }
}

/// Big-endian bytes of a word.
pub open spec fn be_bytes(w: u32) -> Seq<u8> {
    seq![(w / 0x1000000) as u8, (w / 0x10000 % 0x100) as u8, (w / 0x100 % 0x100) as u8, (w % 0x100) as u8]
}

/// The twelve bytes of a command.
pub open spec fn cmd_bytes(c: MObjCmd) -> Seq<u8> {
    be_bytes(word_of(c.inst)) + be_bytes(c.dst) + be_bytes(c.src)
}

/// Reading back the big-endian bytes of a word gives the word.
pub proof fn lemma_be_bytes(w: u32)
    ensures
        be32(be_bytes(w)) == w,
{
    let x = w as int;
    vstd::arithmetic::div_mod::lemma_fundamental_div_mod(x, 0x100);
    vstd::arithmetic::div_mod::lemma_fundamental_div_mod(x / 0x100, 0x100);
    vstd::arithmetic::div_mod::lemma_fundamental_div_mod(x / 0x10000, 0x100);
    vstd::arithmetic::div_mod::lemma_div_denominator(x, 0x100, 0x100);
    vstd::arithmetic::div_mod::lemma_div_denominator(x, 0x10000, 0x100);
    assert(x / 0x10000 / 0x100 == x / 0x1000000);
    assert(x / 0x100 / 0x100 == x / 0x10000);
}

fn push_be(out: &mut Vec<u8>, w: u32)
    ensures
        final(out)@ == old(out)@ + be_bytes(w),
{
    out.push((w / 0x1000000) as u8);
    out.push((w / 0x10000 % 0x100) as u8);
    out.push((w / 0x100 % 0x100) as u8);
    out.push((w % 0x100) as u8);
    assert(final(out)@ =~= old(out)@ + be_bytes(w));
}

/// Decimal digits of `n`, most significant first, without leading zeros.
pub open spec fn dec(n: nat) -> Seq<u8>
    decreases n,
{
    if n < 10 {
        seq![(0x30 + n) as u8]
    } else {
        dec(n / 10).push((0x30 + n % 10) as u8)
    }
}

fn push_dec(out: &mut Vec<u8>, n: u32)
    ensures
        final(out)@ == old(out)@ + dec(n as nat),
        all_ascii(old(out)@) ==> all_ascii(final(out)@),
    decreases n,
{
    if n >= 10 {
        push_dec(out, n / 10);
    }
    out.push((0x30 + n % 10) as u8);
    assert(final(out)@ =~= old(out)@ + dec(n as nat));
}

/// `r` followed by the register number.
pub open spec fn text_r() -> Seq<u8> {
    seq![0x72]
}

/// `PSR`.
pub open spec fn text_psr() -> Seq<u8> {
    seq![0x50, 0x53, 0x52]
}

/// `none`.
pub open spec fn text_none() -> Seq<u8> {
    seq![0x6e, 0x6f, 0x6e, 0x65]
}

/// `enabled`.
pub open spec fn text_enabled() -> Seq<u8> {
    seq![0x65, 0x6e, 0x61, 0x62, 0x6c, 0x65, 0x64]
}

/// `disabled`.
pub open spec fn text_disabled() -> Seq<u8> {
    seq![0x64, 0x69, 0x73, 0x61, 0x62, 0x6c, 0x65, 0x64]
}

/// `skip_out`.
pub open spec fn text_skip_out() -> Seq<u8> {
    seq![0x73, 0x6b, 0x69, 0x70, 0x5f, 0x6f, 0x75, 0x74]
}

/// A single space.
pub open spec fn text_space() -> Seq<u8> {
    seq![0x20]
}

/// The separator between operands.
pub open spec fn text_comma() -> Seq<u8> {
    seq![0x2c, 0x20]
}

/// How an operand is written: `rN`, `PSRN`, or the decimal immediate.
pub open spec fn operand_text(op: MObjOperand) -> Seq<u8> {
    match op {
        MObjOperand::Gpr(v) => text_r() + dec(v as nat),
        MObjOperand::Psr(v) => text_psr() + dec(v as nat),
        MObjOperand::Imm(v) => dec(v as nat),
    }
}

/// An optional operand slot: the operand where its flag is set, else `none`.
pub open spec fn slot_text(flag: bool, op: MObjOperand) -> Seq<u8> {
    if flag {
        operand_text(op)
    } else {
        text_none()
    }
}

/// Whether bit `n` of `w` is set.
pub open spec fn bit(w: u32, n: u32) -> bool {
    (w >> n) & 1 == 1
}

/// The dst half of `set_stream`: primary audio slot, PG/TextST slot, and its enabled flag.
pub open spec fn set_stream_dst_text(c: MObjCmd) -> Seq<u8> {
    slot_text(bit(c.dst, 31), operand_of((c.dst & 0x0fff0000) >> 16u32, c.inst.imm_op1))
        + text_comma() + slot_text(bit(c.dst, 15), operand_of(c.dst & 0xfff, c.inst.imm_op1))
        + text_comma() + (if bit(c.dst, 14) {
        text_enabled()
    } else {
        text_disabled()
    })
}

/// The src half of `set_stream`: IG slot and angle slot.
pub open spec fn set_stream_src_text(c: MObjCmd) -> Seq<u8> {
    slot_text(bit(c.src, 31), operand_of((c.src & 0x0fff0000) >> 16u32, c.inst.imm_op2))
        + text_comma() + slot_text(bit(c.src, 15), operand_of(c.src & 0xfff, c.inst.imm_op2))
}

/// `set_stream` and `set_stream_ss`: primary audio and PG/TextST in the dst word, IG and angle
/// in the src word, each a 16-bit slot with a presence flag in bit 15 and a 12-bit value.
pub open spec fn set_stream_text(c: MObjCmd, op: MObjOpcode) -> Seq<u8> {
    mnemonic_of(op) + text_space() + set_stream_dst_text(c) + text_comma() + set_stream_src_text(c)
}

/// `set_button_page`: button flag in dst bit 31, page flag in src bit 31, `skip_out` in src bit
/// 30, ids in the low 30 bits.
pub open spec fn set_button_page_text(c: MObjCmd) -> Seq<u8> {
    mnemonic_of(MObjOpcode::SetButtonPage) + text_space() + slot_text(
        bit(c.dst, 31),
        operand_of(c.dst & 0x3fffffff, c.inst.imm_op1),
    ) + text_comma() + slot_text(bit(c.src, 31), operand_of(c.src & 0x3fffffff, c.inst.imm_op2))
        + (if bit(c.src, 30) {
        text_comma() + text_skip_out()
    } else {
        Seq::empty()
    })
}

/// The assembly text of a command.
#[verifier::opaque]
pub open spec fn format_seq(c: MObjCmd) -> Seq<u8> {
    match cmd_opcode_of(c) {
        Ok(MObjOpcode::SetStream) => set_stream_text(c, MObjOpcode::SetStream),
        Ok(MObjOpcode::SetStreamSs) => set_stream_text(c, MObjOpcode::SetStreamSs),
        Ok(MObjOpcode::SetButtonPage) => set_button_page_text(c),
        _ => if c.inst.op_cnt == 0 {
            cmd_mnemonic_of(c)
        } else if c.inst.op_cnt == 1 {
            cmd_mnemonic_of(c) + text_space() + operand_text(operand_of(c.dst, c.inst.imm_op1))
        } else {
            cmd_mnemonic_of(c) + text_space() + operand_text(operand_of(c.dst, c.inst.imm_op1))
                + text_comma() + operand_text(operand_of(c.src, c.inst.imm_op2))
        },
    }
}

fn push_operand(out: &mut Vec<u8>, op: MObjOperand)
    ensures
        final(out)@ == old(out)@ + operand_text(op),
        all_ascii(old(out)@) ==> all_ascii(final(out)@),
{
    match op {
        MObjOperand::Gpr(v) => {
            out.push(0x72);
            push_dec(out, v);
        },
        MObjOperand::Psr(v) => {
            out.push(0x50);
            out.push(0x53);
            out.push(0x52);
            push_dec(out, v);
        },
        MObjOperand::Imm(v) => {
            push_dec(out, v);
        },
    }
    assert(final(out)@ =~= old(out)@ + operand_text(op));
}

/// Appends bytes, keeping track of ASCII.
fn push_text(out: &mut Vec<u8>, t: Vec<u8>)
    ensures
        final(out)@ == old(out)@ + t@,
        all_ascii(old(out)@) && all_ascii(t@) ==> all_ascii(final(out)@),
{
    out.extend_from_slice(t.as_slice());
    assert forall|i: int| all_ascii(old(out)@) && all_ascii(t@) && 0 <= i < final(out)@.len() implies
        final(out)@[i] < 0x80 by {
        if i >= old(out)@.len() {
            assert(final(out)@[i] == t@[i - old(out)@.len()]);
        }
    }
}

fn push_slot(out: &mut Vec<u8>, flag: bool, op: MObjOperand)
    ensures
        final(out)@ == old(out)@ + slot_text(flag, op),
        all_ascii(old(out)@) ==> all_ascii(final(out)@),
{
    if flag {
        push_operand(out, op);
    } else {
        push_text(out, vec![0x6e, 0x6f, 0x6e, 0x65]);
    }
}

fn push_comma(out: &mut Vec<u8>)
    ensures
        final(out)@ == old(out)@ + text_comma(),
        all_ascii(old(out)@) ==> all_ascii(final(out)@),
{
    out.push(0x2c);
    out.push(0x20);
    assert(final(out)@ =~= old(out)@ + text_comma());
}

fn push_set_stream_dst(out: &mut Vec<u8>, c: &MObjCmd)
    ensures
        final(out)@ == old(out)@ + set_stream_dst_text(*c),
        all_ascii(old(out)@) ==> all_ascii(final(out)@),
{
    let d = c.dst;
    let ghost start = out@;
    push_slot(out, (d >> 31u32) & 1 == 1, MObjOperand::new((d & 0x0fff0000) >> 16u32, c.inst.imm_op1));
    let ghost s1 = out@;
    push_comma(out);
    push_slot(out, (d >> 15u32) & 1 == 1, MObjOperand::new(d & 0xfff, c.inst.imm_op1));
    let ghost s2 = out@;
    push_comma(out);
    if (d >> 14u32) & 1 == 1 {
        push_text(out, vec![0x65, 0x6e, 0x61, 0x62, 0x6c, 0x65, 0x64]);
    } else {
        push_text(out, vec![0x64, 0x69, 0x73, 0x61, 0x62, 0x6c, 0x65, 0x64]);
    }
    assert(out@ =~= start + set_stream_dst_text(*c));
}

fn push_set_stream_src(out: &mut Vec<u8>, c: &MObjCmd)
    ensures
        final(out)@ == old(out)@ + set_stream_src_text(*c),
        all_ascii(old(out)@) ==> all_ascii(final(out)@),
{
    let s = c.src;
    let ghost start = out@;
    push_slot(out, (s >> 31u32) & 1 == 1, MObjOperand::new((s & 0x0fff0000) >> 16u32, c.inst.imm_op2));
    push_comma(out);
    push_slot(out, (s >> 15u32) & 1 == 1, MObjOperand::new(s & 0xfff, c.inst.imm_op2));
    assert(out@ =~= start + set_stream_src_text(*c));
}

fn push_set_stream(out: &mut Vec<u8>, c: &MObjCmd)
    ensures
        final(out)@ == old(out)@ + text_space() + set_stream_dst_text(*c) + text_comma()
            + set_stream_src_text(*c),
        all_ascii(old(out)@) ==> all_ascii(final(out)@),
{
    let ghost start = out@;
    out.push(0x20);
    push_set_stream_dst(out, c);
    push_comma(out);
    push_set_stream_src(out, c);
    assert(out@ =~= start + text_space() + set_stream_dst_text(*c) + text_comma()
        + set_stream_src_text(*c));
}

fn push_set_button_page(out: &mut Vec<u8>, c: &MObjCmd)
    ensures
        final(out)@ == old(out)@ + text_space() + slot_text(
            bit(c.dst, 31),
            operand_of(c.dst & 0x3fffffff, c.inst.imm_op1),
        ) + text_comma() + slot_text(bit(c.src, 31), operand_of(c.src & 0x3fffffff, c.inst.imm_op2))
            + (if bit(c.src, 30) {
            text_comma() + text_skip_out()
        } else {
            Seq::empty()
        }),
        all_ascii(old(out)@) ==> all_ascii(final(out)@),
{
    let d = c.dst;
    let s = c.src;
    out.push(0x20);
    push_slot(out, (d >> 31u32) & 1 == 1, MObjOperand::new(d & 0x3fffffff, c.inst.imm_op1));
    push_comma(out);
    push_slot(out, (s >> 31u32) & 1 == 1, MObjOperand::new(s & 0x3fffffff, c.inst.imm_op2));
    let ghost before = out@;
    if (s >> 30u32) & 1 == 1 {
        push_comma(out);
        push_text(out, vec![0x73, 0x6b, 0x69, 0x70, 0x5f, 0x6f, 0x75, 0x74]);
        assert(out@ =~= before + (text_comma() + text_skip_out()));
    } else {
        assert(out@ =~= before + Seq::<u8>::empty());
    }
}

fn push_generic(out: &mut Vec<u8>, c: &MObjCmd)
    ensures
        final(out)@ == old(out)@ + (if c.inst.op_cnt == 0 {
            Seq::<u8>::empty()
        } else if c.inst.op_cnt == 1 {
            text_space() + operand_text(operand_of(c.dst, c.inst.imm_op1))
        } else {
            text_space() + operand_text(operand_of(c.dst, c.inst.imm_op1)) + text_comma()
                + operand_text(operand_of(c.src, c.inst.imm_op2))
        }),
        all_ascii(old(out)@) ==> all_ascii(final(out)@),
{
    let ghost start = out@;
    if c.inst.op_cnt >= 1 {
        out.push(0x20);
        push_operand(out, c.dst_operand());
        if c.inst.op_cnt >= 2 {
            push_comma(out);
            push_operand(out, c.src_operand());
        }
    }
    assert(out@ =~= start + (if c.inst.op_cnt == 0 {
        Seq::<u8>::empty()
    } else if c.inst.op_cnt == 1 {
        text_space() + operand_text(operand_of(c.dst, c.inst.imm_op1))
    } else {
        text_space() + operand_text(operand_of(c.dst, c.inst.imm_op1)) + text_comma()
            + operand_text(operand_of(c.src, c.inst.imm_op2))
    }));
}

/// Relies on `String::from_utf8`: ASCII bytes are valid UTF-8, and each becomes one
/// character.
#[verifier::external_body]
fn ascii_string(b: Vec<u8>) -> (r: String)
    requires
        forall|i: int| 0 <= i < b@.len() ==> b@[i] < 0x80,
    ensures
        r@ == ascii_chars(b@),
{
    match String::from_utf8(b) {
        Ok(s) => s,
        Err(_) => String::new(),
    }
}

/// Whether every byte is ASCII.
pub open spec fn all_ascii(b: Seq<u8>) -> bool {
    forall|i: int| 0 <= i < b.len() ==> b[i] < 0x80
}

/// The text that stands for the mnemonic of a command that does not decode.
pub open spec fn bad_mnemonic_of(e: MObjCmdErrorDetails) -> Seq<u8> {
    match e {
        // <BAD MOBJ GROUP>
        MObjCmdErrorDetails::UnknownMObjGroup(_) => seq![0x3c, 0x42, 0x41, 0x44, 0x20, 0x4d, 0x4f, 0x42, 0x4a, 0x20, 0x47, 0x52, 0x4f, 0x55, 0x50, 0x3e],
        // <BAD BRANCH SUBGROUP>
        MObjCmdErrorDetails::UnknownBranchSubGroup(_) => seq![0x3c, 0x42, 0x41, 0x44, 0x20, 0x42, 0x52, 0x41, 0x4e, 0x43, 0x48, 0x20, 0x53, 0x55, 0x42, 0x47, 0x52, 0x4f, 0x55, 0x50, 0x3e],
        // <BAD GOTO INSTRUCTION>
        MObjCmdErrorDetails::UnknownGotoInstruction(_) => seq![0x3c, 0x42, 0x41, 0x44, 0x20, 0x47, 0x4f, 0x54, 0x4f, 0x20, 0x49, 0x4e, 0x53, 0x54, 0x52, 0x55, 0x43, 0x54, 0x49, 0x4f, 0x4e, 0x3e],
        // <BAD JUMP INSTRUCTION>
        MObjCmdErrorDetails::UnknownJumpInstruction(_) => seq![0x3c, 0x42, 0x41, 0x44, 0x20, 0x4a, 0x55, 0x4d, 0x50, 0x20, 0x49, 0x4e, 0x53, 0x54, 0x52, 0x55, 0x43, 0x54, 0x49, 0x4f, 0x4e, 0x3e],
        // <BAD PLAY INSTRUCTION>
        MObjCmdErrorDetails::UnknownPlayInstruction(_) => seq![0x3c, 0x42, 0x41, 0x44, 0x20, 0x50, 0x4c, 0x41, 0x59, 0x20, 0x49, 0x4e, 0x53, 0x54, 0x52, 0x55, 0x43, 0x54, 0x49, 0x4f, 0x4e, 0x3e],
        // <BAD CMP INSTRUCTION>
        MObjCmdErrorDetails::UnknownCmpInstruction(_) => seq![0x3c, 0x42, 0x41, 0x44, 0x20, 0x43, 0x4d, 0x50, 0x20, 0x49, 0x4e, 0x53, 0x54, 0x52, 0x55, 0x43, 0x54, 0x49, 0x4f, 0x4e, 0x3e],
        // <BAD SET SUBGROUP>
        MObjCmdErrorDetails::UnknownSetSubGroup(_) => seq![0x3c, 0x42, 0x41, 0x44, 0x20, 0x53, 0x45, 0x54, 0x20, 0x53, 0x55, 0x42, 0x47, 0x52, 0x4f, 0x55, 0x50, 0x3e],
        // <BAD SET INSTRUCTION>
        MObjCmdErrorDetails::UnknownSetInstruction(_) => seq![0x3c, 0x42, 0x41, 0x44, 0x20, 0x53, 0x45, 0x54, 0x20, 0x49, 0x4e, 0x53, 0x54, 0x52, 0x55, 0x43, 0x54, 0x49, 0x4f, 0x4e, 0x3e],
        // <BAD SETSYSTEM INSTRUCTION>
        MObjCmdErrorDetails::UnknownSetSystemInstruction(_) => seq![0x3c, 0x42, 0x41, 0x44, 0x20, 0x53, 0x45, 0x54, 0x53, 0x59, 0x53, 0x54, 0x45, 0x4d, 0x20, 0x49, 0x4e, 0x53, 0x54, 0x52, 0x55, 0x43, 0x54, 0x49, 0x4f, 0x4e, 0x3e],
    }
}

/// The mnemonic of a command, or a marker naming the field that does not decode.
pub open spec fn cmd_mnemonic_of(c: MObjCmd) -> Seq<u8> {
    match cmd_opcode_of(c) {
        Ok(op) => mnemonic_of(op),
        Err(e) => bad_mnemonic_of(e),
    }
}

fn bad_mnemonic_bytes(e: MObjCmdErrorDetails) -> (r: Vec<u8>)
    ensures
        r@ == bad_mnemonic_of(e),
        all_ascii(r@),
{
    match e {
        MObjCmdErrorDetails::UnknownMObjGroup(_) => vec![0x3c, 0x42, 0x41, 0x44, 0x20, 0x4d, 0x4f, 0x42, 0x4a, 0x20, 0x47, 0x52, 0x4f, 0x55, 0x50, 0x3e],
        MObjCmdErrorDetails::UnknownBranchSubGroup(_) => vec![0x3c, 0x42, 0x41, 0x44, 0x20, 0x42, 0x52, 0x41, 0x4e, 0x43, 0x48, 0x20, 0x53, 0x55, 0x42, 0x47, 0x52, 0x4f, 0x55, 0x50, 0x3e],
        MObjCmdErrorDetails::UnknownGotoInstruction(_) => vec![0x3c, 0x42, 0x41, 0x44, 0x20, 0x47, 0x4f, 0x54, 0x4f, 0x20, 0x49, 0x4e, 0x53, 0x54, 0x52, 0x55, 0x43, 0x54, 0x49, 0x4f, 0x4e, 0x3e],
        MObjCmdErrorDetails::UnknownJumpInstruction(_) => vec![0x3c, 0x42, 0x41, 0x44, 0x20, 0x4a, 0x55, 0x4d, 0x50, 0x20, 0x49, 0x4e, 0x53, 0x54, 0x52, 0x55, 0x43, 0x54, 0x49, 0x4f, 0x4e, 0x3e],
        MObjCmdErrorDetails::UnknownPlayInstruction(_) => vec![0x3c, 0x42, 0x41, 0x44, 0x20, 0x50, 0x4c, 0x41, 0x59, 0x20, 0x49, 0x4e, 0x53, 0x54, 0x52, 0x55, 0x43, 0x54, 0x49, 0x4f, 0x4e, 0x3e],
        MObjCmdErrorDetails::UnknownCmpInstruction(_) => vec![0x3c, 0x42, 0x41, 0x44, 0x20, 0x43, 0x4d, 0x50, 0x20, 0x49, 0x4e, 0x53, 0x54, 0x52, 0x55, 0x43, 0x54, 0x49, 0x4f, 0x4e, 0x3e],
        MObjCmdErrorDetails::UnknownSetSubGroup(_) => vec![0x3c, 0x42, 0x41, 0x44, 0x20, 0x53, 0x45, 0x54, 0x20, 0x53, 0x55, 0x42, 0x47, 0x52, 0x4f, 0x55, 0x50, 0x3e],
        MObjCmdErrorDetails::UnknownSetInstruction(_) => vec![0x3c, 0x42, 0x41, 0x44, 0x20, 0x53, 0x45, 0x54, 0x20, 0x49, 0x4e, 0x53, 0x54, 0x52, 0x55, 0x43, 0x54, 0x49, 0x4f, 0x4e, 0x3e],
        MObjCmdErrorDetails::UnknownSetSystemInstruction(_) => vec![0x3c, 0x42, 0x41, 0x44, 0x20, 0x53, 0x45, 0x54, 0x53, 0x59, 0x53, 0x54, 0x45, 0x4d, 0x20, 0x49, 0x4e, 0x53, 0x54, 0x52, 0x55, 0x43, 0x54, 0x49, 0x4f, 0x4e, 0x3e],
    }
}

fn bad_mnemonic(e: MObjCmdErrorDetails) -> (r: &'static str)
    ensures
        r@ == ascii_chars(bad_mnemonic_of(e)),
{
    match e {
        MObjCmdErrorDetails::UnknownMObjGroup(_) => {
            proof {
                reveal_strlit("<BAD MOBJ GROUP>");
            }
            assert("<BAD MOBJ GROUP>"@ =~= ascii_chars(bad_mnemonic_of(e)));
            "<BAD MOBJ GROUP>"
        },
        MObjCmdErrorDetails::UnknownBranchSubGroup(_) => {
            proof {
                reveal_strlit("<BAD BRANCH SUBGROUP>");
            }
            assert("<BAD BRANCH SUBGROUP>"@ =~= ascii_chars(bad_mnemonic_of(e)));
            "<BAD BRANCH SUBGROUP>"
        },
        MObjCmdErrorDetails::UnknownGotoInstruction(_) => {
            proof {
                reveal_strlit("<BAD GOTO INSTRUCTION>");
            }
            assert("<BAD GOTO INSTRUCTION>"@ =~= ascii_chars(bad_mnemonic_of(e)));
            "<BAD GOTO INSTRUCTION>"
        },
        MObjCmdErrorDetails::UnknownJumpInstruction(_) => {
            proof {
                reveal_strlit("<BAD JUMP INSTRUCTION>");
            }
            assert("<BAD JUMP INSTRUCTION>"@ =~= ascii_chars(bad_mnemonic_of(e)));
            "<BAD JUMP INSTRUCTION>"
        },
        MObjCmdErrorDetails::UnknownPlayInstruction(_) => {
            proof {
                reveal_strlit("<BAD PLAY INSTRUCTION>");
            }
            assert("<BAD PLAY INSTRUCTION>"@ =~= ascii_chars(bad_mnemonic_of(e)));
            "<BAD PLAY INSTRUCTION>"
        },
        MObjCmdErrorDetails::UnknownCmpInstruction(_) => {
            proof {
                reveal_strlit("<BAD CMP INSTRUCTION>");
            }
            assert("<BAD CMP INSTRUCTION>"@ =~= ascii_chars(bad_mnemonic_of(e)));
            "<BAD CMP INSTRUCTION>"
        },
        MObjCmdErrorDetails::UnknownSetSubGroup(_) => {
            proof {
                reveal_strlit("<BAD SET SUBGROUP>");
            }
            assert("<BAD SET SUBGROUP>"@ =~= ascii_chars(bad_mnemonic_of(e)));
            "<BAD SET SUBGROUP>"
        },
        MObjCmdErrorDetails::UnknownSetInstruction(_) => {
            proof {
                reveal_strlit("<BAD SET INSTRUCTION>");
            }
            assert("<BAD SET INSTRUCTION>"@ =~= ascii_chars(bad_mnemonic_of(e)));
            "<BAD SET INSTRUCTION>"
        },
        MObjCmdErrorDetails::UnknownSetSystemInstruction(_) => {
            proof {
                reveal_strlit("<BAD SETSYSTEM INSTRUCTION>");
            }
            assert("<BAD SETSYSTEM INSTRUCTION>"@ =~= ascii_chars(bad_mnemonic_of(e)));
            "<BAD SETSYSTEM INSTRUCTION>"
        },
    }
}

impl MObjCmd {
    /// The operation this command selects, or the first field that selects none.
    pub fn opcode(&self) -> (r: Result<MObjOpcode, MObjCmdErrorDetails>)
        ensures
            r == cmd_opcode_of(*self),
    {
        lookup_opcode(
            self.inst.grp,
            self.inst.sub_grp,
            self.inst.branch_opt,
            self.inst.cmp_opt,
            self.inst.set_opt,
        )
    }

    /// Checks that every field selects a known operation.
    pub fn validate(&self) -> (r: Result<(), MObjCmdErrorDetails>)
        ensures
            r is Ok <==> cmd_opcode_of(*self) is Ok,
            r is Err ==> cmd_opcode_of(*self) == Err::<MObjOpcode, MObjCmdErrorDetails>(r->Err_0),
    {
        match self.opcode() {
            Ok(_) => Ok(()),
            Err(e) => Err(e),
        }
    }

    /// The command's mnemonic, or a marker naming the field that does not decode.
    pub fn mnemonic(&self) -> (r: &'static str)
        ensures
            r@ == ascii_chars(cmd_mnemonic_of(*self)),
    {
        match self.opcode() {
            Ok(op) => op.mnemonic(),
            Err(e) => bad_mnemonic(e),
        }
    }

    fn mnemonic_bytes(&self) -> (r: Vec<u8>)
        ensures
            r@ == cmd_mnemonic_of(*self),
            all_ascii(r@),
    {
        match self.opcode() {
            Ok(op) => op.mnemonic_bytes(),
            Err(e) => bad_mnemonic_bytes(e),
        }
    }

    /// The destination operand.
    pub fn dst_operand(&self) -> (r: MObjOperand)
        ensures
            r == operand_of(self.dst, self.inst.imm_op1),
    {
        MObjOperand::new(self.dst, self.inst.imm_op1)
    }

    /// The source operand.
    pub fn src_operand(&self) -> (r: MObjOperand)
        ensures
            r == operand_of(self.src, self.inst.imm_op2),
    {
        MObjOperand::new(self.src, self.inst.imm_op2)
    }

    /// Reads a 12-byte command and checks that it decodes.
    pub fn parse(reader: &mut SliceReader) -> (r: Result<MObjCmd, Error>)
        ensures
            old(reader).rest().len() >= 12 && cmd_opcode_of(cmd_of_bytes(old(reader).rest())) is Ok
                <==> r is Ok,
            r is Ok ==> r->Ok_0 == cmd_of_bytes(old(reader).rest()) && SliceReader::advanced(
                *old(reader),
                *final(reader),
                12,
            ),
            old(reader).rest().len() >= 12 && r is Err ==> r->Err_0.details
                == ErrorDetails::AppError(
                BdavErrorDetails::BadMObjCommand(
                    cmd_opcode_of(cmd_of_bytes(old(reader).rest()))->Err_0,
                ),
            ),
            old(reader).rest().len() >= 12 ==> SliceReader::advanced(*old(reader), *final(reader), 12),
            old(reader).rest().len() < 12 ==> *final(reader) == *old(reader) && r == Err::<MObjCmd, Error>(
                Error { location: old(reader).pos() as usize, details: ErrorDetails::PacketOverrun(12) },
            ),
    {
        let ghost s = reader.rest();
        if reader.remaining_len() < 12 {
            return Err(reader.make_error(ErrorDetails::PacketOverrun(12)));
        }
        let w = reader.read_be_u32()?;
        assert(reader.rest() =~= s.subrange(4, s.len() as int));
        let dst = reader.read_be_u32()?;
        assert(reader.rest() =~= s.subrange(8, s.len() as int));
        let src = reader.read_be_u32()?;
        assert(reader.rest() =~= s.subrange(12, s.len() as int));
        assert(dst == be32(s.subrange(4, 8)));
        assert(src == be32(s.subrange(8, 12)));
        let cmd = MObjCmd { inst: MObjInstruction::from_word(w), dst, src };
        match cmd.validate() {
            Ok(()) => Ok(cmd),
            Err(e) => Err(
                reader.make_error(ErrorDetails::AppError(BdavErrorDetails::BadMObjCommand(e))),
            ),
        }
    }

    /// The twelve bytes of the command.
    pub fn to_bytes(&self) -> (r: Vec<u8>)
        ensures
            r@ == cmd_bytes(*self),
    {
        let mut out: Vec<u8> = Vec::new();
        push_be(&mut out, self.inst.to_word());
        push_be(&mut out, self.dst);
        push_be(&mut out, self.src);
        assert(out@ =~= cmd_bytes(*self));
        out
    }

    /// The assembly text of the command, as ASCII bytes.
    pub fn format_bytes(&self) -> (r: Vec<u8>)
        ensures
            r@ == format_seq(*self),
            all_ascii(r@),
    {
        reveal(format_seq);
        let mut out = self.mnemonic_bytes();
        match self.opcode() {
            Ok(MObjOpcode::SetStream) | Ok(MObjOpcode::SetStreamSs) => {
                let ghost m = out@;
                push_set_stream(&mut out, self);
                assert(out@ =~= m + text_space() + set_stream_dst_text(*self) + text_comma()
                    + set_stream_src_text(*self));
            },
            Ok(MObjOpcode::SetButtonPage) => {
                push_set_button_page(&mut out, self);
            },
            _ => {
                push_generic(&mut out, self);
                assert(out@ =~= format_seq(*self));
            },
        }
        out
    }

    /// The assembly text of the command.
    pub fn format(&self) -> (r: String)
        ensures
            r@ == ascii_chars(format_seq(*self)),
    {
        ascii_string(self.format_bytes())
    }
}

/// The comment that names a well-known player status register, as ASCII bytes; empty for
/// the others.
#[verifier::opaque]
pub open spec fn psr_comment_of(v: u32) -> Seq<u8> {
    if v == 0 {
        // /* Interactive graphics stream number */
        seq![0x2f, 0x2a, 0x20, 0x49, 0x6e, 0x74, 0x65, 0x72, 0x61, 0x63, 0x74, 0x69, 0x76, 0x65, 0x20, 0x67, 0x72, 0x61, 0x70, 0x68, 0x69, 0x63, 0x73, 0x20, 0x73, 0x74, 0x72, 0x65, 0x61, 0x6d, 0x20, 0x6e, 0x75, 0x6d, 0x62, 0x65, 0x72, 0x20, 0x2a, 0x2f]
    } else if v == 1 {
        // /* Primary audio stream number */
        seq![0x2f, 0x2a, 0x20, 0x50, 0x72, 0x69, 0x6d, 0x61, 0x72, 0x79, 0x20, 0x61, 0x75, 0x64, 0x69, 0x6f, 0x20, 0x73, 0x74, 0x72, 0x65, 0x61, 0x6d, 0x20, 0x6e, 0x75, 0x6d, 0x62, 0x65, 0x72, 0x20, 0x2a, 0x2f]
    } else if v == 2 {
        // /* PG TextST stream number and PiP PG stream number */
        seq![0x2f, 0x2a, 0x20, 0x50, 0x47, 0x20, 0x54, 0x65, 0x78, 0x74, 0x53, 0x54, 0x20, 0x73, 0x74, 0x72, 0x65, 0x61, 0x6d, 0x20, 0x6e, 0x75, 0x6d, 0x62, 0x65, 0x72, 0x20, 0x61, 0x6e, 0x64, 0x20, 0x50, 0x69, 0x50, 0x20, 0x50, 0x47, 0x20, 0x73, 0x74, 0x72, 0x65, 0x61, 0x6d, 0x20, 0x6e, 0x75, 0x6d, 0x62, 0x65, 0x72, 0x20, 0x2a, 0x2f]
    } else if v == 3 {
        // /* Angle number */
        seq![0x2f, 0x2a, 0x20, 0x41, 0x6e, 0x67, 0x6c, 0x65, 0x20, 0x6e, 0x75, 0x6d, 0x62, 0x65, 0x72, 0x20, 0x2a, 0x2f]
    } else if v == 4 {
        // /* Title number */
        seq![0x2f, 0x2a, 0x20, 0x54, 0x69, 0x74, 0x6c, 0x65, 0x20, 0x6e, 0x75, 0x6d, 0x62, 0x65, 0x72, 0x20, 0x2a, 0x2f]
    } else if v == 5 {
        // /* Chapter number */
        seq![0x2f, 0x2a, 0x20, 0x43, 0x68, 0x61, 0x70, 0x74, 0x65, 0x72, 0x20, 0x6e, 0x75, 0x6d, 0x62, 0x65, 0x72, 0x20, 0x2a, 0x2f]
    } else if v == 6 {
        // /* PlayList ID */
        seq![0x2f, 0x2a, 0x20, 0x50, 0x6c, 0x61, 0x79, 0x4c, 0x69, 0x73, 0x74, 0x20, 0x49, 0x44, 0x20, 0x2a, 0x2f]
    } else if v == 7 {
        // /* PlayItem ID */
        seq![0x2f, 0x2a, 0x20, 0x50, 0x6c, 0x61, 0x79, 0x49, 0x74, 0x65, 0x6d, 0x20, 0x49, 0x44, 0x20, 0x2a, 0x2f]
    } else if v == 8 {
        // /* Presentation time */
        seq![0x2f, 0x2a, 0x20, 0x50, 0x72, 0x65, 0x73, 0x65, 0x6e, 0x74, 0x61, 0x74, 0x69, 0x6f, 0x6e, 0x20, 0x74, 0x69, 0x6d, 0x65, 0x20, 0x2a, 0x2f]
    } else if v == 9 {
        // /* Navigation timer */
        seq![0x2f, 0x2a, 0x20, 0x4e, 0x61, 0x76, 0x69, 0x67, 0x61, 0x74, 0x69, 0x6f, 0x6e, 0x20, 0x74, 0x69, 0x6d, 0x65, 0x72, 0x20, 0x2a, 0x2f]
    } else if v == 10 {
        // /* Selected button ID */
        seq![0x2f, 0x2a, 0x20, 0x53, 0x65, 0x6c, 0x65, 0x63, 0x74, 0x65, 0x64, 0x20, 0x62, 0x75, 0x74, 0x74, 0x6f, 0x6e, 0x20, 0x49, 0x44, 0x20, 0x2a, 0x2f]
    } else if v == 11 {
        // /* Page ID */
        seq![0x2f, 0x2a, 0x20, 0x50, 0x61, 0x67, 0x65, 0x20, 0x49, 0x44, 0x20, 0x2a, 0x2f]
    } else if v == 12 {
        // /* User style number */
        seq![0x2f, 0x2a, 0x20, 0x55, 0x73, 0x65, 0x72, 0x20, 0x73, 0x74, 0x79, 0x6c, 0x65, 0x20, 0x6e, 0x75, 0x6d, 0x62, 0x65, 0x72, 0x20, 0x2a, 0x2f]
    } else if v == 13 {
        // /* RO: User age */
        seq![0x2f, 0x2a, 0x20, 0x52, 0x4f, 0x3a, 0x20, 0x55, 0x73, 0x65, 0x72, 0x20, 0x61, 0x67, 0x65, 0x20, 0x2a, 0x2f]
    } else if v == 14 {
        // /* Secondary audio stream number and secondary video stream number */
        seq![0x2f, 0x2a, 0x20, 0x53, 0x65, 0x63, 0x6f, 0x6e, 0x64, 0x61, 0x72, 0x79, 0x20, 0x61, 0x75, 0x64, 0x69, 0x6f, 0x20, 0x73, 0x74, 0x72, 0x65, 0x61, 0x6d, 0x20, 0x6e, 0x75, 0x6d, 0x62, 0x65, 0x72, 0x20, 0x61, 0x6e, 0x64, 0x20, 0x73, 0x65, 0x63, 0x6f, 0x6e, 0x64, 0x61, 0x72, 0x79, 0x20, 0x76, 0x69, 0x64, 0x65, 0x6f, 0x20, 0x73, 0x74, 0x72, 0x65, 0x61, 0x6d, 0x20, 0x6e, 0x75, 0x6d, 0x62, 0x65, 0x72, 0x20, 0x2a, 0x2f]
    } else if v == 15 {
        // /* RO: player capability for audio */
        seq![0x2f, 0x2a, 0x20, 0x52, 0x4f, 0x3a, 0x20, 0x70, 0x6c, 0x61, 0x79, 0x65, 0x72, 0x20, 0x63, 0x61, 0x70, 0x61, 0x62, 0x69, 0x6c, 0x69, 0x74, 0x79, 0x20, 0x66, 0x6f, 0x72, 0x20, 0x61, 0x75, 0x64, 0x69, 0x6f, 0x20, 0x2a, 0x2f]
    } else if v == 16 {
        // /* RO: Language code for audio */
        seq![0x2f, 0x2a, 0x20, 0x52, 0x4f, 0x3a, 0x20, 0x4c, 0x61, 0x6e, 0x67, 0x75, 0x61, 0x67, 0x65, 0x20, 0x63, 0x6f, 0x64, 0x65, 0x20, 0x66, 0x6f, 0x72, 0x20, 0x61, 0x75, 0x64, 0x69, 0x6f, 0x20, 0x2a, 0x2f]
    } else if v == 17 {
        // /* RO: Language code for PG and Text subtitles */
        seq![0x2f, 0x2a, 0x20, 0x52, 0x4f, 0x3a, 0x20, 0x4c, 0x61, 0x6e, 0x67, 0x75, 0x61, 0x67, 0x65, 0x20, 0x63, 0x6f, 0x64, 0x65, 0x20, 0x66, 0x6f, 0x72, 0x20, 0x50, 0x47, 0x20, 0x61, 0x6e, 0x64, 0x20, 0x54, 0x65, 0x78, 0x74, 0x20, 0x73, 0x75, 0x62, 0x74, 0x69, 0x74, 0x6c, 0x65, 0x73, 0x20, 0x2a, 0x2f]
    } else if v == 18 {
        // /* RO: Menu description language code */
        seq![0x2f, 0x2a, 0x20, 0x52, 0x4f, 0x3a, 0x20, 0x4d, 0x65, 0x6e, 0x75, 0x20, 0x64, 0x65, 0x73, 0x63, 0x72, 0x69, 0x70, 0x74, 0x69, 0x6f, 0x6e, 0x20, 0x6c, 0x61, 0x6e, 0x67, 0x75, 0x61, 0x67, 0x65, 0x20, 0x63, 0x6f, 0x64, 0x65, 0x20, 0x2a, 0x2f]
    } else if v == 19 {
        // /* RO: Country code */
        seq![0x2f, 0x2a, 0x20, 0x52, 0x4f, 0x3a, 0x20, 0x43, 0x6f, 0x75, 0x6e, 0x74, 0x72, 0x79, 0x20, 0x63, 0x6f, 0x64, 0x65, 0x20, 0x2a, 0x2f]
    } else if v == 20 {
        // /* RO: Region code */ /* 1 - A, 2 - B, 4 - C */
        seq![0x2f, 0x2a, 0x20, 0x52, 0x4f, 0x3a, 0x20, 0x52, 0x65, 0x67, 0x69, 0x6f, 0x6e, 0x20, 0x63, 0x6f, 0x64, 0x65, 0x20, 0x2a, 0x2f, 0x20, 0x2f, 0x2a, 0x20, 0x31, 0x20, 0x2d, 0x20, 0x41, 0x2c, 0x20, 0x32, 0x20, 0x2d, 0x20, 0x42, 0x2c, 0x20, 0x34, 0x20, 0x2d, 0x20, 0x43, 0x20, 0x2a, 0x2f]
    } else if v == 21 {
        // /* RO: Output Mode Preference */ /* 0 - 2D, 1 - 3D */
        seq![0x2f, 0x2a, 0x20, 0x52, 0x4f, 0x3a, 0x20, 0x4f, 0x75, 0x74, 0x70, 0x75, 0x74, 0x20, 0x4d, 0x6f, 0x64, 0x65, 0x20, 0x50, 0x72, 0x65, 0x66, 0x65, 0x72, 0x65, 0x6e, 0x63, 0x65, 0x20, 0x2a, 0x2f, 0x20, 0x2f, 0x2a, 0x20, 0x30, 0x20, 0x2d, 0x20, 0x32, 0x44, 0x2c, 0x20, 0x31, 0x20, 0x2d, 0x20, 0x33, 0x44, 0x20, 0x2a, 0x2f]
    } else if v == 22 {
        // /* Stereoscopic status */ /* 2D / 3D */ 
        seq![0x2f, 0x2a, 0x20, 0x53, 0x74, 0x65, 0x72, 0x65, 0x6f, 0x73, 0x63, 0x6f, 0x70, 0x69, 0x63, 0x20, 0x73, 0x74, 0x61, 0x74, 0x75, 0x73, 0x20, 0x2a, 0x2f, 0x20, 0x2f, 0x2a, 0x20, 0x32, 0x44, 0x20, 0x2f, 0x20, 0x33, 0x44, 0x20, 0x2a, 0x2f, 0x20]
    } else if v == 23 {
        // /* RO: display capability */
        seq![0x2f, 0x2a, 0x20, 0x52, 0x4f, 0x3a, 0x20, 0x64, 0x69, 0x73, 0x70, 0x6c, 0x61, 0x79, 0x20, 0x63, 0x61, 0x70, 0x61, 0x62, 0x69, 0x6c, 0x69, 0x74, 0x79, 0x20, 0x2a, 0x2f]
    } else if v == 24 {
        // /* RO: 3D capability */
        seq![0x2f, 0x2a, 0x20, 0x52, 0x4f, 0x3a, 0x20, 0x33, 0x44, 0x20, 0x63, 0x61, 0x70, 0x61, 0x62, 0x69, 0x6c, 0x69, 0x74, 0x79, 0x20, 0x2a, 0x2f]
    } else if v == 25 {
        // /* RO: UHD capability */
        seq![0x2f, 0x2a, 0x20, 0x52, 0x4f, 0x3a, 0x20, 0x55, 0x48, 0x44, 0x20, 0x63, 0x61, 0x70, 0x61, 0x62, 0x69, 0x6c, 0x69, 0x74, 0x79, 0x20, 0x2a, 0x2f]
    } else if v == 26 {
        // /* RO: UHD display capability */
        seq![0x2f, 0x2a, 0x20, 0x52, 0x4f, 0x3a, 0x20, 0x55, 0x48, 0x44, 0x20, 0x64, 0x69, 0x73, 0x70, 0x6c, 0x61, 0x79, 0x20, 0x63, 0x61, 0x70, 0x61, 0x62, 0x69, 0x6c, 0x69, 0x74, 0x79, 0x20, 0x2a, 0x2f]
    } else if v == 27 {
        // /* RO: HDR preference */
        seq![0x2f, 0x2a, 0x20, 0x52, 0x4f, 0x3a, 0x20, 0x48, 0x44, 0x52, 0x20, 0x70, 0x72, 0x65, 0x66, 0x65, 0x72, 0x65, 0x6e, 0x63, 0x65, 0x20, 0x2a, 0x2f]
    } else if v == 28 {
        // /* RO: SDR conversion preference */
        seq![0x2f, 0x2a, 0x20, 0x52, 0x4f, 0x3a, 0x20, 0x53, 0x44, 0x52, 0x20, 0x63, 0x6f, 0x6e, 0x76, 0x65, 0x72, 0x73, 0x69, 0x6f, 0x6e, 0x20, 0x70, 0x72, 0x65, 0x66, 0x65, 0x72, 0x65, 0x6e, 0x63, 0x65, 0x20, 0x2a, 0x2f]
    } else if v == 29 {
        // /* RO: player capability for video */
        seq![0x2f, 0x2a, 0x20, 0x52, 0x4f, 0x3a, 0x20, 0x70, 0x6c, 0x61, 0x79, 0x65, 0x72, 0x20, 0x63, 0x61, 0x70, 0x61, 0x62, 0x69, 0x6c, 0x69, 0x74, 0x79, 0x20, 0x66, 0x6f, 0x72, 0x20, 0x76, 0x69, 0x64, 0x65, 0x6f, 0x20, 0x2a, 0x2f]
    } else if v == 30 {
        // /* RO: player capability for text subtitle */
        seq![0x2f, 0x2a, 0x20, 0x52, 0x4f, 0x3a, 0x20, 0x70, 0x6c, 0x61, 0x79, 0x65, 0x72, 0x20, 0x63, 0x61, 0x70, 0x61, 0x62, 0x69, 0x6c, 0x69, 0x74, 0x79, 0x20, 0x66, 0x6f, 0x72, 0x20, 0x74, 0x65, 0x78, 0x74, 0x20, 0x73, 0x75, 0x62, 0x74, 0x69, 0x74, 0x6c, 0x65, 0x20, 0x2a, 0x2f]
    } else if v == 31 {
        // /* RO: Player profile and version */
        seq![0x2f, 0x2a, 0x20, 0x52, 0x4f, 0x3a, 0x20, 0x50, 0x6c, 0x61, 0x79, 0x65, 0x72, 0x20, 0x70, 0x72, 0x6f, 0x66, 0x69, 0x6c, 0x65, 0x20, 0x61, 0x6e, 0x64, 0x20, 0x76, 0x65, 0x72, 0x73, 0x69, 0x6f, 0x6e, 0x20, 0x2a, 0x2f]
    } else if v == 36 {
        // /* backup PSR4 */
        seq![0x2f, 0x2a, 0x20, 0x62, 0x61, 0x63, 0x6b, 0x75, 0x70, 0x20, 0x50, 0x53, 0x52, 0x34, 0x20, 0x2a, 0x2f]
    } else if v == 37 {
        // /* backup PSR5 */
        seq![0x2f, 0x2a, 0x20, 0x62, 0x61, 0x63, 0x6b, 0x75, 0x70, 0x20, 0x50, 0x53, 0x52, 0x35, 0x20, 0x2a, 0x2f]
    } else if v == 38 {
        // /* backup PSR6 */
        seq![0x2f, 0x2a, 0x20, 0x62, 0x61, 0x63, 0x6b, 0x75, 0x70, 0x20, 0x50, 0x53, 0x52, 0x36, 0x20, 0x2a, 0x2f]
    } else if v == 39 {
        // /* backup PSR7 */
        seq![0x2f, 0x2a, 0x20, 0x62, 0x61, 0x63, 0x6b, 0x75, 0x70, 0x20, 0x50, 0x53, 0x52, 0x37, 0x20, 0x2a, 0x2f]
    } else if v == 40 {
        // /* backup PSR8 */
        seq![0x2f, 0x2a, 0x20, 0x62, 0x61, 0x63, 0x6b, 0x75, 0x70, 0x20, 0x50, 0x53, 0x52, 0x38, 0x20, 0x2a, 0x2f]
    } else if v == 42 {
        // /* backup PSR10 */
        seq![0x2f, 0x2a, 0x20, 0x62, 0x61, 0x63, 0x6b, 0x75, 0x70, 0x20, 0x50, 0x53, 0x52, 0x31, 0x30, 0x20, 0x2a, 0x2f]
    } else if v == 43 {
        // /* backup PSR11 */
        seq![0x2f, 0x2a, 0x20, 0x62, 0x61, 0x63, 0x6b, 0x75, 0x70, 0x20, 0x50, 0x53, 0x52, 0x31, 0x31, 0x20, 0x2a, 0x2f]
    } else if v == 44 {
        // /* backup PSR12 */
        seq![0x2f, 0x2a, 0x20, 0x62, 0x61, 0x63, 0x6b, 0x75, 0x70, 0x20, 0x50, 0x53, 0x52, 0x31, 0x32, 0x20, 0x2a, 0x2f]
    } else if v == 48 {
        // /* RO: Characteristic text caps */
        seq![0x2f, 0x2a, 0x20, 0x52, 0x4f, 0x3a, 0x20, 0x43, 0x68, 0x61, 0x72, 0x61, 0x63, 0x74, 0x65, 0x72, 0x69, 0x73, 0x74, 0x69, 0x63, 0x20, 0x74, 0x65, 0x78, 0x74, 0x20, 0x63, 0x61, 0x70, 0x73, 0x20, 0x2a, 0x2f]
    } else if v == 49 {
        // /* RO: Characteristic text caps */
        seq![0x2f, 0x2a, 0x20, 0x52, 0x4f, 0x3a, 0x20, 0x43, 0x68, 0x61, 0x72, 0x61, 0x63, 0x74, 0x65, 0x72, 0x69, 0x73, 0x74, 0x69, 0x63, 0x20, 0x74, 0x65, 0x78, 0x74, 0x20, 0x63, 0x61, 0x70, 0x73, 0x20, 0x2a, 0x2f]
    } else if v == 50 {
        // /* RO: Characteristic text caps */
        seq![0x2f, 0x2a, 0x20, 0x52, 0x4f, 0x3a, 0x20, 0x43, 0x68, 0x61, 0x72, 0x61, 0x63, 0x74, 0x65, 0x72, 0x69, 0x73, 0x74, 0x69, 0x63, 0x20, 0x74, 0x65, 0x78, 0x74, 0x20, 0x63, 0x61, 0x70, 0x73, 0x20, 0x2a, 0x2f]
    } else if v == 51 {
        // /* RO: Characteristic text caps */
        seq![0x2f, 0x2a, 0x20, 0x52, 0x4f, 0x3a, 0x20, 0x43, 0x68, 0x61, 0x72, 0x61, 0x63, 0x74, 0x65, 0x72, 0x69, 0x73, 0x74, 0x69, 0x63, 0x20, 0x74, 0x65, 0x78, 0x74, 0x20, 0x63, 0x61, 0x70, 0x73, 0x20, 0x2a, 0x2f]
    } else if v == 52 {
        // /* RO: Characteristic text caps */
        seq![0x2f, 0x2a, 0x20, 0x52, 0x4f, 0x3a, 0x20, 0x43, 0x68, 0x61, 0x72, 0x61, 0x63, 0x74, 0x65, 0x72, 0x69, 0x73, 0x74, 0x69, 0x63, 0x20, 0x74, 0x65, 0x78, 0x74, 0x20, 0x63, 0x61, 0x70, 0x73, 0x20, 0x2a, 0x2f]
    } else if v == 53 {
        // /* RO: Characteristic text caps */
        seq![0x2f, 0x2a, 0x20, 0x52, 0x4f, 0x3a, 0x20, 0x43, 0x68, 0x61, 0x72, 0x61, 0x63, 0x74, 0x65, 0x72, 0x69, 0x73, 0x74, 0x69, 0x63, 0x20, 0x74, 0x65, 0x78, 0x74, 0x20, 0x63, 0x61, 0x70, 0x73, 0x20, 0x2a, 0x2f]
    } else if v == 54 {
        // /* RO: Characteristic text caps */
        seq![0x2f, 0x2a, 0x20, 0x52, 0x4f, 0x3a, 0x20, 0x43, 0x68, 0x61, 0x72, 0x61, 0x63, 0x74, 0x65, 0x72, 0x69, 0x73, 0x74, 0x69, 0x63, 0x20, 0x74, 0x65, 0x78, 0x74, 0x20, 0x63, 0x61, 0x70, 0x73, 0x20, 0x2a, 0x2f]
    } else if v == 55 {
        // /* RO: Characteristic text caps */
        seq![0x2f, 0x2a, 0x20, 0x52, 0x4f, 0x3a, 0x20, 0x43, 0x68, 0x61, 0x72, 0x61, 0x63, 0x74, 0x65, 0x72, 0x69, 0x73, 0x74, 0x69, 0x63, 0x20, 0x74, 0x65, 0x78, 0x74, 0x20, 0x63, 0x61, 0x70, 0x73, 0x20, 0x2a, 0x2f]
    } else if v == 56 {
        // /* RO: Characteristic text caps */
        seq![0x2f, 0x2a, 0x20, 0x52, 0x4f, 0x3a, 0x20, 0x43, 0x68, 0x61, 0x72, 0x61, 0x63, 0x74, 0x65, 0x72, 0x69, 0x73, 0x74, 0x69, 0x63, 0x20, 0x74, 0x65, 0x78, 0x74, 0x20, 0x63, 0x61, 0x70, 0x73, 0x20, 0x2a, 0x2f]
    } else if v == 57 {
        // /* RO: Characteristic text caps */
        seq![0x2f, 0x2a, 0x20, 0x52, 0x4f, 0x3a, 0x20, 0x43, 0x68, 0x61, 0x72, 0x61, 0x63, 0x74, 0x65, 0x72, 0x69, 0x73, 0x74, 0x69, 0x63, 0x20, 0x74, 0x65, 0x78, 0x74, 0x20, 0x63, 0x61, 0x70, 0x73, 0x20, 0x2a, 0x2f]
    } else if v == 58 {
        // /* RO: Characteristic text caps */
        seq![0x2f, 0x2a, 0x20, 0x52, 0x4f, 0x3a, 0x20, 0x43, 0x68, 0x61, 0x72, 0x61, 0x63, 0x74, 0x65, 0x72, 0x69, 0x73, 0x74, 0x69, 0x63, 0x20, 0x74, 0x65, 0x78, 0x74, 0x20, 0x63, 0x61, 0x70, 0x73, 0x20, 0x2a, 0x2f]
    } else if v == 59 {
        // /* RO: Characteristic text caps */
        seq![0x2f, 0x2a, 0x20, 0x52, 0x4f, 0x3a, 0x20, 0x43, 0x68, 0x61, 0x72, 0x61, 0x63, 0x74, 0x65, 0x72, 0x69, 0x73, 0x74, 0x69, 0x63, 0x20, 0x74, 0x65, 0x78, 0x74, 0x20, 0x63, 0x61, 0x70, 0x73, 0x20, 0x2a, 0x2f]
    } else if v == 60 {
        // /* RO: Characteristic text caps */
        seq![0x2f, 0x2a, 0x20, 0x52, 0x4f, 0x3a, 0x20, 0x43, 0x68, 0x61, 0x72, 0x61, 0x63, 0x74, 0x65, 0x72, 0x69, 0x73, 0x74, 0x69, 0x63, 0x20, 0x74, 0x65, 0x78, 0x74, 0x20, 0x63, 0x61, 0x70, 0x73, 0x20, 0x2a, 0x2f]
    } else if v == 61 {
        // /* RO: Characteristic text caps */
        seq![0x2f, 0x2a, 0x20, 0x52, 0x4f, 0x3a, 0x20, 0x43, 0x68, 0x61, 0x72, 0x61, 0x63, 0x74, 0x65, 0x72, 0x69, 0x73, 0x74, 0x69, 0x63, 0x20, 0x74, 0x65, 0x78, 0x74, 0x20, 0x63, 0x61, 0x70, 0x73, 0x20, 0x2a, 0x2f]
    } else if v == 102 {
        // /* BD+ receive */
        seq![0x2f, 0x2a, 0x20, 0x42, 0x44, 0x2b, 0x20, 0x72, 0x65, 0x63, 0x65, 0x69, 0x76, 0x65, 0x20, 0x2a, 0x2f]
    } else if v == 103 {
        // /* BD+ send */
        seq![0x2f, 0x2a, 0x20, 0x42, 0x44, 0x2b, 0x20, 0x73, 0x65, 0x6e, 0x64, 0x20, 0x2a, 0x2f]
    } else if v == 104 {
        // /* BD+ shared */
        seq![0x2f, 0x2a, 0x20, 0x42, 0x44, 0x2b, 0x20, 0x73, 0x68, 0x61, 0x72, 0x65, 0x64, 0x20, 0x2a, 0x2f]
    } else {
        Seq::empty()
    }
}

impl MObjOperand {
    /// The comment that names the register of a well-known PSR operand; empty for any other
    /// operand.
    pub fn psr_comment(&self) -> (r: &'static str)
        ensures
            r@ == ascii_chars(match self {
                MObjOperand::Psr(v) => psr_comment_of(*v),
                _ => Seq::empty(),
            }),
    {
        reveal(psr_comment_of);
        match self {
            MObjOperand::Psr(v) => {
                if *v == 0 {
                    proof {
                        reveal_strlit("/* Interactive graphics stream number */");
                    }
                    assert("/* Interactive graphics stream number */"@ =~= ascii_chars(psr_comment_of(*v)));
                    "/* Interactive graphics stream number */"
                } else if *v == 1 {
                    proof {
                        reveal_strlit("/* Primary audio stream number */");
                    }
                    assert("/* Primary audio stream number */"@ =~= ascii_chars(psr_comment_of(*v)));
                    "/* Primary audio stream number */"
                } else if *v == 2 {
                    proof {
                        reveal_strlit("/* PG TextST stream number and PiP PG stream number */");
                    }
                    assert("/* PG TextST stream number and PiP PG stream number */"@ =~= ascii_chars(psr_comment_of(*v)));
                    "/* PG TextST stream number and PiP PG stream number */"
                } else if *v == 3 {
                    proof {
                        reveal_strlit("/* Angle number */");
                    }
                    assert("/* Angle number */"@ =~= ascii_chars(psr_comment_of(*v)));
                    "/* Angle number */"
                } else if *v == 4 {
                    proof {
                        reveal_strlit("/* Title number */");
                    }
                    assert("/* Title number */"@ =~= ascii_chars(psr_comment_of(*v)));
                    "/* Title number */"
                } else if *v == 5 {
                    proof {
                        reveal_strlit("/* Chapter number */");
                    }
                    assert("/* Chapter number */"@ =~= ascii_chars(psr_comment_of(*v)));
                    "/* Chapter number */"
                } else if *v == 6 {
                    proof {
                        reveal_strlit("/* PlayList ID */");
                    }
                    assert("/* PlayList ID */"@ =~= ascii_chars(psr_comment_of(*v)));
                    "/* PlayList ID */"
                } else if *v == 7 {
                    proof {
                        reveal_strlit("/* PlayItem ID */");
                    }
                    assert("/* PlayItem ID */"@ =~= ascii_chars(psr_comment_of(*v)));
                    "/* PlayItem ID */"
                } else if *v == 8 {
                    proof {
                        reveal_strlit("/* Presentation time */");
                    }
                    assert("/* Presentation time */"@ =~= ascii_chars(psr_comment_of(*v)));
                    "/* Presentation time */"
                } else if *v == 9 {
                    proof {
                        reveal_strlit("/* Navigation timer */");
                    }
                    assert("/* Navigation timer */"@ =~= ascii_chars(psr_comment_of(*v)));
                    "/* Navigation timer */"
                } else if *v == 10 {
                    proof {
                        reveal_strlit("/* Selected button ID */");
                    }
                    assert("/* Selected button ID */"@ =~= ascii_chars(psr_comment_of(*v)));
                    "/* Selected button ID */"
                } else if *v == 11 {
                    proof {
                        reveal_strlit("/* Page ID */");
                    }
                    assert("/* Page ID */"@ =~= ascii_chars(psr_comment_of(*v)));
                    "/* Page ID */"
                } else if *v == 12 {
                    proof {
                        reveal_strlit("/* User style number */");
                    }
                    assert("/* User style number */"@ =~= ascii_chars(psr_comment_of(*v)));
                    "/* User style number */"
                } else if *v == 13 {
                    proof {
                        reveal_strlit("/* RO: User age */");
                    }
                    assert("/* RO: User age */"@ =~= ascii_chars(psr_comment_of(*v)));
                    "/* RO: User age */"
                } else if *v == 14 {
                    proof {
                        reveal_strlit("/* Secondary audio stream number and secondary video stream number */");
                    }
                    assert("/* Secondary audio stream number and secondary video stream number */"@ =~= ascii_chars(psr_comment_of(*v)));
                    "/* Secondary audio stream number and secondary video stream number */"
                } else if *v == 15 {
                    proof {
                        reveal_strlit("/* RO: player capability for audio */");
                    }
                    assert("/* RO: player capability for audio */"@ =~= ascii_chars(psr_comment_of(*v)));
                    "/* RO: player capability for audio */"
                } else if *v == 16 {
                    proof {
                        reveal_strlit("/* RO: Language code for audio */");
                    }
                    assert("/* RO: Language code for audio */"@ =~= ascii_chars(psr_comment_of(*v)));
                    "/* RO: Language code for audio */"
                } else if *v == 17 {
                    proof {
                        reveal_strlit("/* RO: Language code for PG and Text subtitles */");
                    }
                    assert("/* RO: Language code for PG and Text subtitles */"@ =~= ascii_chars(psr_comment_of(*v)));
                    "/* RO: Language code for PG and Text subtitles */"
                } else if *v == 18 {
                    proof {
                        reveal_strlit("/* RO: Menu description language code */");
                    }
                    assert("/* RO: Menu description language code */"@ =~= ascii_chars(psr_comment_of(*v)));
                    "/* RO: Menu description language code */"
                } else if *v == 19 {
                    proof {
                        reveal_strlit("/* RO: Country code */");
                    }
                    assert("/* RO: Country code */"@ =~= ascii_chars(psr_comment_of(*v)));
                    "/* RO: Country code */"
                } else if *v == 20 {
                    proof {
                        reveal_strlit("/* RO: Region code */ /* 1 - A, 2 - B, 4 - C */");
                    }
                    assert("/* RO: Region code */ /* 1 - A, 2 - B, 4 - C */"@ =~= ascii_chars(psr_comment_of(*v)));
                    "/* RO: Region code */ /* 1 - A, 2 - B, 4 - C */"
                } else if *v == 21 {
                    proof {
                        reveal_strlit("/* RO: Output Mode Preference */ /* 0 - 2D, 1 - 3D */");
                    }
                    assert("/* RO: Output Mode Preference */ /* 0 - 2D, 1 - 3D */"@ =~= ascii_chars(psr_comment_of(*v)));
                    "/* RO: Output Mode Preference */ /* 0 - 2D, 1 - 3D */"
                } else if *v == 22 {
                    proof {
                        reveal_strlit("/* Stereoscopic status */ /* 2D / 3D */ ");
                    }
                    assert("/* Stereoscopic status */ /* 2D / 3D */ "@ =~= ascii_chars(psr_comment_of(*v)));
                    "/* Stereoscopic status */ /* 2D / 3D */ "
                } else if *v == 23 {
                    proof {
                        reveal_strlit("/* RO: display capability */");
                    }
                    assert("/* RO: display capability */"@ =~= ascii_chars(psr_comment_of(*v)));
                    "/* RO: display capability */"
                } else if *v == 24 {
                    proof {
                        reveal_strlit("/* RO: 3D capability */");
                    }
                    assert("/* RO: 3D capability */"@ =~= ascii_chars(psr_comment_of(*v)));
                    "/* RO: 3D capability */"
                } else if *v == 25 {
                    proof {
                        reveal_strlit("/* RO: UHD capability */");
                    }
                    assert("/* RO: UHD capability */"@ =~= ascii_chars(psr_comment_of(*v)));
                    "/* RO: UHD capability */"
                } else if *v == 26 {
                    proof {
                        reveal_strlit("/* RO: UHD display capability */");
                    }
                    assert("/* RO: UHD display capability */"@ =~= ascii_chars(psr_comment_of(*v)));
                    "/* RO: UHD display capability */"
                } else if *v == 27 {
                    proof {
                        reveal_strlit("/* RO: HDR preference */");
                    }
                    assert("/* RO: HDR preference */"@ =~= ascii_chars(psr_comment_of(*v)));
                    "/* RO: HDR preference */"
                } else if *v == 28 {
                    proof {
                        reveal_strlit("/* RO: SDR conversion preference */");
                    }
                    assert("/* RO: SDR conversion preference */"@ =~= ascii_chars(psr_comment_of(*v)));
                    "/* RO: SDR conversion preference */"
                } else if *v == 29 {
                    proof {
                        reveal_strlit("/* RO: player capability for video */");
                    }
                    assert("/* RO: player capability for video */"@ =~= ascii_chars(psr_comment_of(*v)));
                    "/* RO: player capability for video */"
                } else if *v == 30 {
                    proof {
                        reveal_strlit("/* RO: player capability for text subtitle */");
                    }
                    assert("/* RO: player capability for text subtitle */"@ =~= ascii_chars(psr_comment_of(*v)));
                    "/* RO: player capability for text subtitle */"
                } else if *v == 31 {
                    proof {
                        reveal_strlit("/* RO: Player profile and version */");
                    }
                    assert("/* RO: Player profile and version */"@ =~= ascii_chars(psr_comment_of(*v)));
                    "/* RO: Player profile and version */"
                } else if *v == 36 {
                    proof {
                        reveal_strlit("/* backup PSR4 */");
                    }
                    assert("/* backup PSR4 */"@ =~= ascii_chars(psr_comment_of(*v)));
                    "/* backup PSR4 */"
                } else if *v == 37 {
                    proof {
                        reveal_strlit("/* backup PSR5 */");
                    }
                    assert("/* backup PSR5 */"@ =~= ascii_chars(psr_comment_of(*v)));
                    "/* backup PSR5 */"
                } else if *v == 38 {
                    proof {
                        reveal_strlit("/* backup PSR6 */");
                    }
                    assert("/* backup PSR6 */"@ =~= ascii_chars(psr_comment_of(*v)));
                    "/* backup PSR6 */"
                } else if *v == 39 {
                    proof {
                        reveal_strlit("/* backup PSR7 */");
                    }
                    assert("/* backup PSR7 */"@ =~= ascii_chars(psr_comment_of(*v)));
                    "/* backup PSR7 */"
                } else if *v == 40 {
                    proof {
                        reveal_strlit("/* backup PSR8 */");
                    }
                    assert("/* backup PSR8 */"@ =~= ascii_chars(psr_comment_of(*v)));
                    "/* backup PSR8 */"
                } else if *v == 42 {
                    proof {
                        reveal_strlit("/* backup PSR10 */");
                    }
                    assert("/* backup PSR10 */"@ =~= ascii_chars(psr_comment_of(*v)));
                    "/* backup PSR10 */"
                } else if *v == 43 {
                    proof {
                        reveal_strlit("/* backup PSR11 */");
                    }
                    assert("/* backup PSR11 */"@ =~= ascii_chars(psr_comment_of(*v)));
                    "/* backup PSR11 */"
                } else if *v == 44 {
                    proof {
                        reveal_strlit("/* backup PSR12 */");
                    }
                    assert("/* backup PSR12 */"@ =~= ascii_chars(psr_comment_of(*v)));
                    "/* backup PSR12 */"
                } else if *v == 48 {
                    proof {
                        reveal_strlit("/* RO: Characteristic text caps */");
                    }
                    assert("/* RO: Characteristic text caps */"@ =~= ascii_chars(psr_comment_of(*v)));
                    "/* RO: Characteristic text caps */"
                } else if *v == 49 {
                    proof {
                        reveal_strlit("/* RO: Characteristic text caps */");
                    }
                    assert("/* RO: Characteristic text caps */"@ =~= ascii_chars(psr_comment_of(*v)));
                    "/* RO: Characteristic text caps */"
                } else if *v == 50 {
                    proof {
                        reveal_strlit("/* RO: Characteristic text caps */");
                    }
                    assert("/* RO: Characteristic text caps */"@ =~= ascii_chars(psr_comment_of(*v)));
                    "/* RO: Characteristic text caps */"
                } else if *v == 51 {
                    proof {
                        reveal_strlit("/* RO: Characteristic text caps */");
                    }
                    assert("/* RO: Characteristic text caps */"@ =~= ascii_chars(psr_comment_of(*v)));
                    "/* RO: Characteristic text caps */"
                } else if *v == 52 {
                    proof {
                        reveal_strlit("/* RO: Characteristic text caps */");
                    }
                    assert("/* RO: Characteristic text caps */"@ =~= ascii_chars(psr_comment_of(*v)));
                    "/* RO: Characteristic text caps */"
                } else if *v == 53 {
                    proof {
                        reveal_strlit("/* RO: Characteristic text caps */");
                    }
                    assert("/* RO: Characteristic text caps */"@ =~= ascii_chars(psr_comment_of(*v)));
                    "/* RO: Characteristic text caps */"
                } else if *v == 54 {
                    proof {
                        reveal_strlit("/* RO: Characteristic text caps */");
                    }
                    assert("/* RO: Characteristic text caps */"@ =~= ascii_chars(psr_comment_of(*v)));
                    "/* RO: Characteristic text caps */"
                } else if *v == 55 {
                    proof {
                        reveal_strlit("/* RO: Characteristic text caps */");
                    }
                    assert("/* RO: Characteristic text caps */"@ =~= ascii_chars(psr_comment_of(*v)));
                    "/* RO: Characteristic text caps */"
                } else if *v == 56 {
                    proof {
                        reveal_strlit("/* RO: Characteristic text caps */");
                    }
                    assert("/* RO: Characteristic text caps */"@ =~= ascii_chars(psr_comment_of(*v)));
                    "/* RO: Characteristic text caps */"
                } else if *v == 57 {
                    proof {
                        reveal_strlit("/* RO: Characteristic text caps */");
                    }
                    assert("/* RO: Characteristic text caps */"@ =~= ascii_chars(psr_comment_of(*v)));
                    "/* RO: Characteristic text caps */"
                } else if *v == 58 {
                    proof {
                        reveal_strlit("/* RO: Characteristic text caps */");
                    }
                    assert("/* RO: Characteristic text caps */"@ =~= ascii_chars(psr_comment_of(*v)));
                    "/* RO: Characteristic text caps */"
                } else if *v == 59 {
                    proof {
                        reveal_strlit("/* RO: Characteristic text caps */");
                    }
                    assert("/* RO: Characteristic text caps */"@ =~= ascii_chars(psr_comment_of(*v)));
                    "/* RO: Characteristic text caps */"
                } else if *v == 60 {
                    proof {
                        reveal_strlit("/* RO: Characteristic text caps */");
                    }
                    assert("/* RO: Characteristic text caps */"@ =~= ascii_chars(psr_comment_of(*v)));
                    "/* RO: Characteristic text caps */"
                } else if *v == 61 {
                    proof {
                        reveal_strlit("/* RO: Characteristic text caps */");
                    }
                    assert("/* RO: Characteristic text caps */"@ =~= ascii_chars(psr_comment_of(*v)));
                    "/* RO: Characteristic text caps */"
                } else if *v == 102 {
                    proof {
                        reveal_strlit("/* BD+ receive */");
                    }
                    assert("/* BD+ receive */"@ =~= ascii_chars(psr_comment_of(*v)));
                    "/* BD+ receive */"
                } else if *v == 103 {
                    proof {
                        reveal_strlit("/* BD+ send */");
                    }
                    assert("/* BD+ send */"@ =~= ascii_chars(psr_comment_of(*v)));
                    "/* BD+ send */"
                } else if *v == 104 {
                    proof {
                        reveal_strlit("/* BD+ shared */");
                    }
                    assert("/* BD+ shared */"@ =~= ascii_chars(psr_comment_of(*v)));
                    "/* BD+ shared */"
                } else {
                    proof {
                        reveal_strlit("");
                    }
                    assert(""@ =~= ascii_chars(psr_comment_of(*v)));
                    ""
                }
            },
            _ => {
                proof {
                    reveal_strlit("");
                }
                assert(""@ =~= ascii_chars(Seq::<u8>::empty()));
                ""
            },
        }
    }
}

} // verus!
