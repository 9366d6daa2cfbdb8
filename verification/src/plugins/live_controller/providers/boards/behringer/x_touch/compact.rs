//! The Behringer X-Touch Compact: its controls, the MIDI messages it sends
//! for them, and the messages that show a control's state on the board.
use vstd::prelude::*;

use crate::plugins::live_controller::controller_services::{
    ControllerButtonEvent, ControllerEvent, ControllerFaderColumnEvent, ControllerFaderEvent,
    ControllerKnobEvent,
};
use crate::plugins::live_controller::scalable_value::{ScalableValue, U7, lemma_u7_of_u7, u7_of};
use crate::utils::smallmap::SmallMap;
use crate::plugins::midi_router::live_event::{
    RawLiveEvent, VoiceKind, data_prefix_len, parse_live_event, parsed_event, write_voice_message,
};

verus! {

/// A control of the board, numbered from 1 within its kind.
#[derive(Debug, Clone, Copy, PartialEq, Eq, Structural)]
pub enum XTouchControl {
    /// A fader column (fader, touch sensor and flash button), 1 to 9
    Fader(u8),
    /// A knob, 1 to 16
    Knob(u8),
    /// A button of the 8x3 field, 1 to 24
    Button(u8),
    /// A button of the right column, 1 to 6
    RightButton(u8),
}

/// The control exists on the board.
pub open spec fn is_control(c: XTouchControl) -> bool {
    match c {
        XTouchControl::Fader(n) => 1 <= n <= 9,
        XTouchControl::Knob(n) => 1 <= n <= 16,
        XTouchControl::Button(n) => 1 <= n <= 24,
        XTouchControl::RightButton(n) => 1 <= n <= 6,
    }
}

/// The decimal digit `d`.
pub open spec fn digit_text(d: nat) -> Seq<char> {
    if d == 0 {
        "0"@
    } else if d == 1 {
        "1"@
    } else if d == 2 {
        "2"@
    } else if d == 3 {
        "3"@
    } else if d == 4 {
        "4"@
    } else if d == 5 {
        "5"@
    } else if d == 6 {
        "6"@
    } else if d == 7 {
        "7"@
    } else if d == 8 {
        "8"@
    } else {
        "9"@
    }
}

/// `n` in decimal.
pub open spec fn decimal(n: nat) -> Seq<char>
    decreases n,
{
    if n < 10 {
        digit_text(n)
    } else {
        decimal(n / 10) + digit_text(n % 10)
    }
}

/// The name of a control as shown to the user: its kind, then its number.
pub open spec fn control_name(c: XTouchControl) -> Seq<char> {
    match c {
        XTouchControl::Fader(n) => "Fader "@ + decimal(n as nat),
        XTouchControl::Knob(n) => "Knob "@ + decimal(n as nat),
        XTouchControl::Button(n) => "Button "@ + decimal(n as nat),
        XTouchControl::RightButton(n) => "Right button "@ + decimal(n as nat),
    }
}

/// The decimal digit `d`.
fn digit_str(d: u8) -> (r: &'static str)
    requires
        d < 10,
    ensures
        r@ == digit_text(d as nat),
{
    match d {
        0 => "0",
        1 => "1",
        2 => "2",
        3 => "3",
        4 => "4",
        5 => "5",
        6 => "6",
        7 => "7",
        8 => "8",
        _ => "9",
    }
}

/// The name of a control as shown to the user.
pub fn name_of_control(c: XTouchControl) -> (r: String)
    requires
        is_control(c),
    ensures
        r@ == control_name(c),
{
    let (kind, n): (&str, u8) = match c {
        XTouchControl::Fader(n) => ("Fader ", n),
        XTouchControl::Knob(n) => ("Knob ", n),
        XTouchControl::Button(n) => ("Button ", n),
        XTouchControl::RightButton(n) => ("Right button ", n),
    };
    let mut r = String::from_str(kind);
    if n >= 10 {
        r.append(digit_str(n / 10));
    }
    r.append(digit_str(n % 10));
    proof {
        assert((n as nat) / 10 < 10);
        if n >= 10 {
            assert(decimal((n as nat) / 10) == digit_text((n as nat) / 10));
        }
    }
    r
}

/// The identifier (a UUID) of each control.
#[verifier::opaque]
pub open spec fn control_uuid(c: XTouchControl) -> u128 {
    match c {
            XTouchControl::Fader(n) => match n {
                1 => 0x4663a89c_20f2_4cb8_909e_0bb07232ea02,
                2 => 0x6e2f56b6_7d2e_4a4c_a851_b25c83e0cfcd,
                3 => 0x7071c05b_aae3_4558_b46d_0fb565dd8f54,
                4 => 0x56f275bd_daa9_4f8b_8fb1_18bcac5d9eba,
                5 => 0x884310f0_2430_4bc1_9be2_09012b793636,
                6 => 0xa3a53834_eafa_43d1_b4fe_867cd745b921,
                7 => 0x12da758e_d237_4e9e_8934_5f12596fc403,
                8 => 0xb70e2e49_821c_4d83_8b4c_5b65ab04e11e,
                9 => 0x5ad73fb0_83de_487f_ae2e_ba9b6449ec72,
                _ => 0,
            },
            XTouchControl::Knob(n) => match n {
                1 => 0xf3f153e8_9e32_4d05_a9e3_51c55e70b154,
                2 => 0xf4e1bbdd_8e30_4572_8d28_9f62e50b122a,
                3 => 0xa6dc2582_09e7_4e62_a8f9_70241bfb6126,
                4 => 0xa61dfafe_4320_4fdf_956f_df7204785b6f,
                5 => 0xa7581fc6_e12a_4ad6_a9ec_baf49cf0a4c5,
                6 => 0x03a4cccb_c2ce_4766_a5c3_806da6608f5b,
                7 => 0x798c350d_891b_4754_b38a_f404b7c90e11,
                8 => 0xd010ce07_48f5_4ef1_9697_4680eada4d97,
                9 => 0xd8792b3f_c89f_4e4a_b09c_4e428ca20940,
                10 => 0xe49e3a5a_d913_496f_91c6_c0a85465a5a8,
                11 => 0xddce924b_875f_4045_b454_fd3951357154,
                12 => 0x20ca1c7a_c6dd_4077_91f6_0b77cc491133,
                13 => 0x8e9848a9_b1ec_41ca_abf8_a0f90f72c7a5,
                14 => 0x9c269774_1f69_4382_8a56_252a79d10af6,
                15 => 0x0e458397_9e64_4990_81b0_d71bd2d62570,
                16 => 0xcf7a3bf8_80c5_4aa6_84c3_568976fdc565,
                _ => 0,
            },
            XTouchControl::Button(n) => match n {
                1 => 0xb7e45052_a453_448f_9746_421209e04e5f,
                2 => 0x1b9d3ef5_67da_4153_ae9e_242853fdcc66,
                3 => 0x886b75b7_7c1b_46b5_9390_bc003bc42d5e,
                4 => 0x098c11af_4de9_4099_97a9_9f9e6d313980,
                5 => 0x5ac69203_ad9e_4527_9e7c_7877327f9265,
                6 => 0xc872addf_8b0a_4088_9de4_d37c646ed838,
                7 => 0x3546d405_d1e4_4cb8_b64f_71de1b61a360,
                8 => 0xdc5487f7_34f1_4a14_867d_1ba1baa3b24b,
                9 => 0x85156934_1182_45a8_accb_b5e36810ba5f,
                10 => 0x929f6ebc_7630_48cf_9c27_443a7ee4a726,
                11 => 0x7b8945fc_e390_4704_b062_b0b45ef850a1,
                12 => 0x3463682f_6475_4f26_a07b_96840c136efc,
                13 => 0xe462a2e5_35a1_4feb_8cce_84b992b6b2d7,
                14 => 0xba7ea164_ac60_47fc_ab95_b86c67c03efd,
                15 => 0xf1216be9_d327_4b42_aff7_8c6ace4b841b,
                16 => 0xdf2dc765_3aa9_40ff_8a87_b35e5e34fd59,
                17 => 0x53ca128d_3707_4257_bd24_9d79ee8ed7a3,
                18 => 0xec26f100_f943_4b35_aa2d_e98f742d5496,
                19 => 0xdcf03d32_95ee_4340_b1f3_1e338349ad33,
                20 => 0x6d745720_8682_4ee8_8d66_cc9ece6db2f7,
                21 => 0x8d06de65_93ca_4506_925b_46607c9b6cc5,
                22 => 0x6ba3ce8f_e711_4d72_941a_3f4183f99551,
                23 => 0x3b85faac_0d0d_4b13_9d62_83847163943a,
                24 => 0xc0e5fcce_a361_4c7d_b061_d5dc44f11bc2,
                _ => 0,
            },
            XTouchControl::RightButton(n) => match n {
                1 => 0x5c34b04d_3d8b_490a_8e46_4e25fe232b76,
                2 => 0xa7b05143_dbbc_4ed9_98a5_f1efabfe2fa6,
                3 => 0xcf2d5e99_384c_4d81_8d48_33850e9f265b,
                4 => 0xa5a96f66_24c7_426e_96b6_90a935daeb76,
                5 => 0xf3983309_e728_4797_bd5c_b651b839f1de,
                6 => 0x41a23307_e1ad_4d2a_8d4d_c4477e997c4d,
                _ => 0,
            },
    }
}

/// The identifier (a UUID) of a control.
pub fn control_id(c: XTouchControl) -> (r: u128)
    ensures
        r == control_uuid(c),
{
    reveal(control_uuid);
    match c {
            XTouchControl::Fader(n) => match n {
                1 => 0x4663a89c_20f2_4cb8_909e_0bb07232ea02,
                2 => 0x6e2f56b6_7d2e_4a4c_a851_b25c83e0cfcd,
                3 => 0x7071c05b_aae3_4558_b46d_0fb565dd8f54,
                4 => 0x56f275bd_daa9_4f8b_8fb1_18bcac5d9eba,
                5 => 0x884310f0_2430_4bc1_9be2_09012b793636,
                6 => 0xa3a53834_eafa_43d1_b4fe_867cd745b921,
                7 => 0x12da758e_d237_4e9e_8934_5f12596fc403,
                8 => 0xb70e2e49_821c_4d83_8b4c_5b65ab04e11e,
                9 => 0x5ad73fb0_83de_487f_ae2e_ba9b6449ec72,
                _ => 0,
            },
            XTouchControl::Knob(n) => match n {
                1 => 0xf3f153e8_9e32_4d05_a9e3_51c55e70b154,
                2 => 0xf4e1bbdd_8e30_4572_8d28_9f62e50b122a,
                3 => 0xa6dc2582_09e7_4e62_a8f9_70241bfb6126,
                4 => 0xa61dfafe_4320_4fdf_956f_df7204785b6f,
                5 => 0xa7581fc6_e12a_4ad6_a9ec_baf49cf0a4c5,
                6 => 0x03a4cccb_c2ce_4766_a5c3_806da6608f5b,
                7 => 0x798c350d_891b_4754_b38a_f404b7c90e11,
                8 => 0xd010ce07_48f5_4ef1_9697_4680eada4d97,
                9 => 0xd8792b3f_c89f_4e4a_b09c_4e428ca20940,
                10 => 0xe49e3a5a_d913_496f_91c6_c0a85465a5a8,
                11 => 0xddce924b_875f_4045_b454_fd3951357154,
                12 => 0x20ca1c7a_c6dd_4077_91f6_0b77cc491133,
                13 => 0x8e9848a9_b1ec_41ca_abf8_a0f90f72c7a5,
                14 => 0x9c269774_1f69_4382_8a56_252a79d10af6,
                15 => 0x0e458397_9e64_4990_81b0_d71bd2d62570,
                16 => 0xcf7a3bf8_80c5_4aa6_84c3_568976fdc565,
                _ => 0,
            },
            XTouchControl::Button(n) => match n {
                1 => 0xb7e45052_a453_448f_9746_421209e04e5f,
                2 => 0x1b9d3ef5_67da_4153_ae9e_242853fdcc66,
                3 => 0x886b75b7_7c1b_46b5_9390_bc003bc42d5e,
                4 => 0x098c11af_4de9_4099_97a9_9f9e6d313980,
                5 => 0x5ac69203_ad9e_4527_9e7c_7877327f9265,
                6 => 0xc872addf_8b0a_4088_9de4_d37c646ed838,
                7 => 0x3546d405_d1e4_4cb8_b64f_71de1b61a360,
                8 => 0xdc5487f7_34f1_4a14_867d_1ba1baa3b24b,
                9 => 0x85156934_1182_45a8_accb_b5e36810ba5f,
                10 => 0x929f6ebc_7630_48cf_9c27_443a7ee4a726,
                11 => 0x7b8945fc_e390_4704_b062_b0b45ef850a1,
                12 => 0x3463682f_6475_4f26_a07b_96840c136efc,
                13 => 0xe462a2e5_35a1_4feb_8cce_84b992b6b2d7,
                14 => 0xba7ea164_ac60_47fc_ab95_b86c67c03efd,
                15 => 0xf1216be9_d327_4b42_aff7_8c6ace4b841b,
                16 => 0xdf2dc765_3aa9_40ff_8a87_b35e5e34fd59,
                17 => 0x53ca128d_3707_4257_bd24_9d79ee8ed7a3,
                18 => 0xec26f100_f943_4b35_aa2d_e98f742d5496,
                19 => 0xdcf03d32_95ee_4340_b1f3_1e338349ad33,
                20 => 0x6d745720_8682_4ee8_8d66_cc9ece6db2f7,
                21 => 0x8d06de65_93ca_4506_925b_46607c9b6cc5,
                22 => 0x6ba3ce8f_e711_4d72_941a_3f4183f99551,
                23 => 0x3b85faac_0d0d_4b13_9d62_83847163943a,
                24 => 0xc0e5fcce_a361_4c7d_b061_d5dc44f11bc2,
                _ => 0,
            },
            XTouchControl::RightButton(n) => match n {
                1 => 0x5c34b04d_3d8b_490a_8e46_4e25fe232b76,
                2 => 0xa7b05143_dbbc_4ed9_98a5_f1efabfe2fa6,
                3 => 0xcf2d5e99_384c_4d81_8d48_33850e9f265b,
                4 => 0xa5a96f66_24c7_426e_96b6_90a935daeb76,
                5 => 0xf3983309_e728_4797_bd5c_b651b839f1de,
                6 => 0x41a23307_e1ad_4d2a_8d4d_c4477e997c4d,
                _ => 0,
            },
    }
}

/// The control that an identifier names, if any.
pub fn control_of_id(id: u128) -> (r: Option<XTouchControl>)
    ensures
        r matches Some(c) ==> is_control(c) && control_uuid(c) == id,
        r is None ==> forall|c: XTouchControl| is_control(c) ==> control_uuid(c) != id,
{
    reveal(control_uuid);
    match id {
        0x4663a89c_20f2_4cb8_909e_0bb07232ea02 => Some(XTouchControl::Fader(1)),
        0x6e2f56b6_7d2e_4a4c_a851_b25c83e0cfcd => Some(XTouchControl::Fader(2)),
        0x7071c05b_aae3_4558_b46d_0fb565dd8f54 => Some(XTouchControl::Fader(3)),
        0x56f275bd_daa9_4f8b_8fb1_18bcac5d9eba => Some(XTouchControl::Fader(4)),
        0x884310f0_2430_4bc1_9be2_09012b793636 => Some(XTouchControl::Fader(5)),
        0xa3a53834_eafa_43d1_b4fe_867cd745b921 => Some(XTouchControl::Fader(6)),
        0x12da758e_d237_4e9e_8934_5f12596fc403 => Some(XTouchControl::Fader(7)),
        0xb70e2e49_821c_4d83_8b4c_5b65ab04e11e => Some(XTouchControl::Fader(8)),
        0x5ad73fb0_83de_487f_ae2e_ba9b6449ec72 => Some(XTouchControl::Fader(9)),
        0xf3f153e8_9e32_4d05_a9e3_51c55e70b154 => Some(XTouchControl::Knob(1)),
        0xf4e1bbdd_8e30_4572_8d28_9f62e50b122a => Some(XTouchControl::Knob(2)),
        0xa6dc2582_09e7_4e62_a8f9_70241bfb6126 => Some(XTouchControl::Knob(3)),
        0xa61dfafe_4320_4fdf_956f_df7204785b6f => Some(XTouchControl::Knob(4)),
        0xa7581fc6_e12a_4ad6_a9ec_baf49cf0a4c5 => Some(XTouchControl::Knob(5)),
        0x03a4cccb_c2ce_4766_a5c3_806da6608f5b => Some(XTouchControl::Knob(6)),
        0x798c350d_891b_4754_b38a_f404b7c90e11 => Some(XTouchControl::Knob(7)),
        0xd010ce07_48f5_4ef1_9697_4680eada4d97 => Some(XTouchControl::Knob(8)),
        0xd8792b3f_c89f_4e4a_b09c_4e428ca20940 => Some(XTouchControl::Knob(9)),
        0xe49e3a5a_d913_496f_91c6_c0a85465a5a8 => Some(XTouchControl::Knob(10)),
        0xddce924b_875f_4045_b454_fd3951357154 => Some(XTouchControl::Knob(11)),
        0x20ca1c7a_c6dd_4077_91f6_0b77cc491133 => Some(XTouchControl::Knob(12)),
        0x8e9848a9_b1ec_41ca_abf8_a0f90f72c7a5 => Some(XTouchControl::Knob(13)),
        0x9c269774_1f69_4382_8a56_252a79d10af6 => Some(XTouchControl::Knob(14)),
        0x0e458397_9e64_4990_81b0_d71bd2d62570 => Some(XTouchControl::Knob(15)),
        0xcf7a3bf8_80c5_4aa6_84c3_568976fdc565 => Some(XTouchControl::Knob(16)),
        0xb7e45052_a453_448f_9746_421209e04e5f => Some(XTouchControl::Button(1)),
        0x1b9d3ef5_67da_4153_ae9e_242853fdcc66 => Some(XTouchControl::Button(2)),
        0x886b75b7_7c1b_46b5_9390_bc003bc42d5e => Some(XTouchControl::Button(3)),
        0x098c11af_4de9_4099_97a9_9f9e6d313980 => Some(XTouchControl::Button(4)),
        0x5ac69203_ad9e_4527_9e7c_7877327f9265 => Some(XTouchControl::Button(5)),
        0xc872addf_8b0a_4088_9de4_d37c646ed838 => Some(XTouchControl::Button(6)),
        0x3546d405_d1e4_4cb8_b64f_71de1b61a360 => Some(XTouchControl::Button(7)),
        0xdc5487f7_34f1_4a14_867d_1ba1baa3b24b => Some(XTouchControl::Button(8)),
        0x85156934_1182_45a8_accb_b5e36810ba5f => Some(XTouchControl::Button(9)),
        0x929f6ebc_7630_48cf_9c27_443a7ee4a726 => Some(XTouchControl::Button(10)),
        0x7b8945fc_e390_4704_b062_b0b45ef850a1 => Some(XTouchControl::Button(11)),
        0x3463682f_6475_4f26_a07b_96840c136efc => Some(XTouchControl::Button(12)),
        0xe462a2e5_35a1_4feb_8cce_84b992b6b2d7 => Some(XTouchControl::Button(13)),
        0xba7ea164_ac60_47fc_ab95_b86c67c03efd => Some(XTouchControl::Button(14)),
        0xf1216be9_d327_4b42_aff7_8c6ace4b841b => Some(XTouchControl::Button(15)),
        0xdf2dc765_3aa9_40ff_8a87_b35e5e34fd59 => Some(XTouchControl::Button(16)),
        0x53ca128d_3707_4257_bd24_9d79ee8ed7a3 => Some(XTouchControl::Button(17)),
        0xec26f100_f943_4b35_aa2d_e98f742d5496 => Some(XTouchControl::Button(18)),
        0xdcf03d32_95ee_4340_b1f3_1e338349ad33 => Some(XTouchControl::Button(19)),
        0x6d745720_8682_4ee8_8d66_cc9ece6db2f7 => Some(XTouchControl::Button(20)),
        0x8d06de65_93ca_4506_925b_46607c9b6cc5 => Some(XTouchControl::Button(21)),
        0x6ba3ce8f_e711_4d72_941a_3f4183f99551 => Some(XTouchControl::Button(22)),
        0x3b85faac_0d0d_4b13_9d62_83847163943a => Some(XTouchControl::Button(23)),
        0xc0e5fcce_a361_4c7d_b061_d5dc44f11bc2 => Some(XTouchControl::Button(24)),
        0x5c34b04d_3d8b_490a_8e46_4e25fe232b76 => Some(XTouchControl::RightButton(1)),
        0xa7b05143_dbbc_4ed9_98a5_f1efabfe2fa6 => Some(XTouchControl::RightButton(2)),
        0xcf2d5e99_384c_4d81_8d48_33850e9f265b => Some(XTouchControl::RightButton(3)),
        0xa5a96f66_24c7_426e_96b6_90a935daeb76 => Some(XTouchControl::RightButton(4)),
        0xf3983309_e728_4797_bd5c_b651b839f1de => Some(XTouchControl::RightButton(5)),
        0x41a23307_e1ad_4d2a_8d4d_c4477e997c4d => Some(XTouchControl::RightButton(6)),
        _ => None,
    }
}

/// The control and event that a note message on the board stands for: the
/// knob pushes (notes 0 to 15), the button field (16 to 39), the flash buttons
/// of the fader columns (40 to 48) and the right buttons (49 to 54), all on
/// channel 1.
pub open spec fn note_event(state: bool, channel: u8, note: u8) -> Option<(u128, ControllerEvent)> {
    let push = ControllerButtonEvent::Push { state, velocity: None };
    if channel != 1 {
        None
    } else if note <= 15 {
        Some(
            (
                control_uuid(XTouchControl::Knob((note + 1) as u8)),
                ControllerEvent::Knob(ControllerKnobEvent::Push(state)),
            ),
        )
    } else if note <= 39 {
        Some((control_uuid(XTouchControl::Button((note - 15) as u8)), ControllerEvent::Button(push)))
    } else if note <= 48 {
        Some(
            (
                control_uuid(XTouchControl::Fader((note - 39) as u8)),
                ControllerEvent::FaderColumn(ControllerFaderColumnEvent::Button(push)),
            ),
        )
    } else if note <= 54 {
        Some(
            (
                control_uuid(XTouchControl::RightButton((note - 48) as u8)),
                ControllerEvent::Button(push),
            ),
        )
    } else {
        None
    }
}

/// The control and event that a control change on the board stands for: fader
/// positions (controllers 1 to 9), fader touches (101 to 109, touched above
/// 62) and knob positions (10 to 25), all on channel 1.
pub open spec fn controller_event(channel: u8, control: u8, value: U7) -> Option<
    (u128, ControllerEvent),
> {
    if channel != 1 {
        None
    } else if 1 <= control <= 9 {
        Some(
            (
                control_uuid(XTouchControl::Fader(control)),
                ControllerEvent::FaderColumn(
                    ControllerFaderColumnEvent::Fader(
                        ControllerFaderEvent::Pos(ScalableValue::U7(value)),
                    ),
                ),
            ),
        )
    } else if 101 <= control <= 109 {
        Some(
            (
                control_uuid(XTouchControl::Fader((control - 100) as u8)),
                ControllerEvent::FaderColumn(
                    ControllerFaderColumnEvent::Fader(
                        ControllerFaderEvent::Touch(value.value() > 62),
                    ),
                ),
            ),
        )
    } else if 10 <= control <= 25 {
        Some(
            (
                control_uuid(XTouchControl::Knob((control - 9) as u8)),
                ControllerEvent::Knob(ControllerKnobEvent::Pos(ScalableValue::U7(value))),
            ),
        )
    } else {
        None
    }
}

/// The control and event for a note on (`state`) or off message.
pub fn create_note_event(state: bool, channel: u8, note: U7) -> (r: Option<(u128, ControllerEvent)>)
    requires
        channel < 16,
    ensures
        r == note_event(state, channel, note.value()),
{
    let note = note.as_int();
    let push = ControllerButtonEvent::Push { state, velocity: None };
    if channel != 1 {
        None
    } else if note <= 15 {
        Some(
            (
                control_id(XTouchControl::Knob(note + 1)),
                ControllerEvent::Knob(ControllerKnobEvent::Push(state)),
            ),
        )
    } else if note <= 39 {
        Some((control_id(XTouchControl::Button(note - 15)), ControllerEvent::Button(push)))
    } else if note <= 48 {
        Some(
            (
                control_id(XTouchControl::Fader(note - 39)),
                ControllerEvent::FaderColumn(ControllerFaderColumnEvent::Button(push)),
            ),
        )
    } else if note <= 54 {
        Some((control_id(XTouchControl::RightButton(note - 48)), ControllerEvent::Button(push)))
    } else {
        None
    }
}

/// The control and event for a control change message.
pub fn create_controller_event(channel: u8, control: U7, value: U7) -> (r: Option<
    (u128, ControllerEvent),
>)
    requires
        channel < 16,
    ensures
        r == controller_event(channel, control.value(), value),
{
    let control = control.as_int();
    if channel != 1 {
        None
    } else if 1 <= control && control <= 9 {
        Some(
            (
                control_id(XTouchControl::Fader(control)),
                ControllerEvent::FaderColumn(
                    ControllerFaderColumnEvent::Fader(
                        ControllerFaderEvent::Pos(ScalableValue::U7(value)),
                    ),
                ),
            ),
        )
    } else if 101 <= control && control <= 109 {
        Some(
            (
                control_id(XTouchControl::Fader(control - 100)),
                ControllerEvent::FaderColumn(
                    ControllerFaderColumnEvent::Fader(ControllerFaderEvent::Touch(value.as_int() > 62)),
                ),
            ),
        )
    } else if 10 <= control && control <= 25 {
        Some(
            (
                control_id(XTouchControl::Knob(control - 9)),
                ControllerEvent::Knob(ControllerKnobEvent::Pos(ScalableValue::U7(value))),
            ),
        )
    } else {
        None
    }
}

/// The control and event that a packet from the board stands for: note off and
/// note on messages (on whatever velocity) and control changes; anything else
/// stands for nothing.
pub open spec fn packet_event(raw: Seq<u8>) -> Option<(u128, ControllerEvent)> {
    match parsed_event(raw) {
        Some(RawLiveEvent::NoteOff { channel, key, .. }) => note_event(false, channel, key),
        Some(RawLiveEvent::NoteOn { channel, key, .. }) => note_event(true, channel, key),
        Some(RawLiveEvent::Controller { channel, controller, value }) => controller_event(
            channel,
            controller,
            u7_of(value),
        ),
        _ => None,
    }
}

/// Reads a packet received from the board.
pub fn handle_packet(packet: &[u8]) -> (r: Option<(u128, ControllerEvent)>)
    ensures
        r == packet_event(packet@),
{
    proof {
        lemma_parsed_event_ranges(packet@);
    }
    match parse_live_event(packet) {
        Some(RawLiveEvent::NoteOff { channel, key, .. }) => {
            let key = U7::from_int_lossy(key);
            create_note_event(false, channel, key)
        },
        Some(RawLiveEvent::NoteOn { channel, key, .. }) => {
            let key = U7::from_int_lossy(key);
            create_note_event(true, channel, key)
        },
        Some(RawLiveEvent::Controller { channel, controller, value }) => {
            let controller = U7::from_int_lossy(controller);
            let value = U7::from_int_lossy(value);
            proof {
                lemma_u7_of_u7(value);
            }
            create_controller_event(channel, controller, value)
        },
        _ => None,
    }
}

/// The data bytes of a parsed message are below 128 and its channel below 16.
proof fn lemma_parsed_event_ranges(raw: Seq<u8>)
    ensures
        match parsed_event(raw) {
            Some(RawLiveEvent::NoteOff { channel, key, vel }) => channel < 16 && key < 128 && vel < 128,
            Some(RawLiveEvent::NoteOn { channel, key, vel }) => channel < 16 && key < 128 && vel < 128,
            Some(RawLiveEvent::Controller { channel, controller, value }) => channel < 16 && controller
                < 128 && value < 128,
            _ => true,
        },
{
    if raw.len() > 0 && 0x80 <= raw[0] <= 0xEF {
        let data = raw.drop_first();
        if data_prefix_len(data) >= 2 {
            lemma_data_prefix(data, 0);
            lemma_data_prefix(data, 1);
        }
    }
}

/// The bytes within the data prefix are below 128.
proof fn lemma_data_prefix(data: Seq<u8>, i: int)
    requires
        0 <= i < data_prefix_len(data),
    ensures
        i < data.len(),
        data[i] < 128,
    decreases i,
{
    assert(data.len() > 0 && data[0] < 0x80);
    if i > 0 {
        assert(data_prefix_len(data) == 1 + data_prefix_len(data.drop_first()));
        lemma_data_prefix(data.drop_first(), i - 1);
        assert(data.drop_first()[i - 1] == data[i]);
    }
}

/// A control change on channel 1.
pub open spec fn cc_packet(controller: int, value: int) -> Seq<u8> {
    seq![0xB1u8, controller as u8, value as u8]
}

/// A note on (`on`) or note off on channel 1, at full velocity.
pub open spec fn note_packet(on: bool, key: int) -> Seq<u8> {
    seq![if on { 0x91u8 } else { 0x81u8 }, key as u8, 127u8]
}

/// The packet that moves a fader or knob (`controller`) to a position.
pub open spec fn position_packets(controller: int, position: Option<ScalableValue>) -> Seq<Seq<u8>> {
    match position {
        Some(v) => seq![cc_packet(controller, v.spec_u7())],
        None => Seq::empty(),
    }
}

/// The packet that lights a button (`key`) or turns it off.
pub open spec fn led_packets(key: int, led: Option<bool>) -> Seq<Seq<u8>> {
    match led {
        Some(on) => seq![note_packet(on, key)],
        None => Seq::empty(),
    }
}

/// The packets that show a control's state on the board: a fader column's
/// fader position and flash button light, a knob's position (knobs 1 to 15),
/// and a button's light.
pub open spec fn reflect_packets(c: XTouchControl, fader: Option<ScalableValue>, led: Option<bool>) -> Seq<
    Seq<u8>,
> {
    match c {
        XTouchControl::Fader(n) => position_packets(n as int, fader) + led_packets(39 + n, led),
        XTouchControl::Knob(n) => if n <= 15 {
            position_packets(n - 1, fader)
        } else {
            Seq::empty()
        },
        XTouchControl::Button(n) => led_packets(15 + n, led),
        XTouchControl::RightButton(n) => led_packets(48 + n, led),
    }
}

/// Pushes the packet that moves `controller` to `position`, if there is one.
fn push_position(packets: &mut Vec<Vec<u8>>, controller: u8, position: Option<ScalableValue>)
    requires
        controller < 128,
    ensures
        final(packets)@.map_values(|p: Vec<u8>| p@) == old(packets)@.map_values(|p: Vec<u8>| p@)
            + position_packets(controller as int, position),
{
    let ghost before = packets@.map_values(|p: Vec<u8>| p@);
    match position {
        Some(v) => {
            let value = v.as_u7().as_int();
            let packet = write_voice_message(VoiceKind::Controller, 1, controller, value);
            packets.push(packet);
        },
        None => {},
    }
    assert(packets@.map_values(|p: Vec<u8>| p@) =~= before + position_packets(
        controller as int,
        position,
    ));
}

/// Pushes the packet that lights or darkens `key`, if there is a state.
fn push_led(packets: &mut Vec<Vec<u8>>, key: u8, led: Option<bool>)
    requires
        key < 128,
    ensures
        final(packets)@.map_values(|p: Vec<u8>| p@) == old(packets)@.map_values(|p: Vec<u8>| p@)
            + led_packets(key as int, led),
{
    let ghost before = packets@.map_values(|p: Vec<u8>| p@);
    match led {
        Some(on) => {
            let packet = if on {
                write_voice_message(VoiceKind::NoteOn, 1, key, 127)
            } else {
                write_voice_message(VoiceKind::NoteOff, 1, key, 127)
            };
            packets.push(packet);
        },
        None => {},
    }
    assert(packets@.map_values(|p: Vec<u8>| p@) =~= before + led_packets(key as int, led));
}

/// The MIDI packets that show the state of the control `id` on the board: its
/// fader position (`fader`) and its light (`led`). An identifier that names
/// no control of the board gives no packets.
pub fn reflect_to_board(id: u128, fader: Option<ScalableValue>, led: Option<bool>) -> (r: Vec<Vec<u8>>)
    ensures
        forall|c: XTouchControl|
            is_control(c) && control_uuid(c) == id ==> r@.map_values(|p: Vec<u8>| p@)
                == reflect_packets(c, fader, led),
        (forall|c: XTouchControl| is_control(c) ==> control_uuid(c) != id) ==> r@.len() == 0,
{
    let mut packets: Vec<Vec<u8>> = Vec::new();
    let ghost empty = packets@.map_values(|p: Vec<u8>| p@);
    assert(empty =~= Seq::<Seq<u8>>::empty());
    let found = control_of_id(id);
    proof {
        lemma_control_uuids_distinct();
    }
    match found {
        Some(XTouchControl::Fader(n)) => {
            push_position(&mut packets, n, fader);
            push_led(&mut packets, 39 + n, led);
        },
        Some(XTouchControl::Knob(n)) => {
            if n <= 15 {
                push_position(&mut packets, n - 1, fader);
            }
        },
        Some(XTouchControl::Button(n)) => {
            push_led(&mut packets, 15 + n, led);
        },
        Some(XTouchControl::RightButton(n)) => {
            push_led(&mut packets, 48 + n, led);
        },
        None => {},
    }
    packets
}

/// Distinct controls have distinct identifiers.
pub proof fn lemma_control_uuids_distinct()
    ensures
        forall|a: XTouchControl, b: XTouchControl|
            is_control(a) && is_control(b) && control_uuid(a) == control_uuid(b) ==> a == b,
{
    reveal(control_uuid);
}

/// The board shows a control's state on the message numbers that the
/// control sends, on the same channel: a fader's position on its
/// controller, a fader column's flash light and a button's light on their
/// notes.
pub proof fn law_feedback_matches_input(n: u8, value: U7, on: bool)
    ensures
        1 <= n <= 9 ==> ({
            let packets = reflect_packets(XTouchControl::Fader(n), Some(ScalableValue::U7(value)), Some(on));
            &&& packets.len() == 2
            &&& packets[0][0] == 0xB1
            &&& controller_event(1, packets[0][1], value) matches Some((id, _)) && id == control_uuid(
                XTouchControl::Fader(n),
            )
            &&& note_event(on, 1, packets[1][1]) matches Some((id, _)) && id == control_uuid(
                XTouchControl::Fader(n),
            )
        }),
        1 <= n <= 24 ==> ({
            let packets = reflect_packets(XTouchControl::Button(n), None, Some(on));
            &&& packets.len() == 1
            &&& note_event(on, 1, packets[0][1]) matches Some((id, _)) && id == control_uuid(
                XTouchControl::Button(n),
            )
        }),
        1 <= n <= 6 ==> ({
            let packets = reflect_packets(XTouchControl::RightButton(n), None, Some(on));
            &&& packets.len() == 1
            &&& note_event(on, 1, packets[0][1]) matches Some((id, _)) && id == control_uuid(
                XTouchControl::RightButton(n),
            )
        }),
{
    if 1 <= n <= 9 {
        let packets = reflect_packets(XTouchControl::Fader(n), Some(ScalableValue::U7(value)), Some(on));
        assert(packets[0] == cc_packet(n as int, ScalableValue::U7(value).spec_u7()));
        assert(packets[1] == note_packet(on, 39 + n));
        assert(packets[1][1] == (39 + n) as u8);
        assert(((39 + n) as u8 - 39) as u8 == n);
    }
    if 1 <= n <= 24 {
        assert(((15 + n) as u8 - 15) as u8 == n);
    }
    if 1 <= n <= 6 {
        assert(((48 + n) as u8 - 48) as u8 == n);
    }
}

/// Provides X-Touch Compact controllers to the live controller plugin.
pub struct XTouchCompactProvider;

impl XTouchCompactProvider {
    /// The board's id among the boards the show knows.
    pub fn id(&self) -> (r: u128)
        ensures
            r == 0x569ec2d6_e5b4_4fb8_b27d_c17f41728f6b,
    {
        0x569ec2d6_e5b4_4fb8_b27d_c17f41728f6b
    }

    /// The board's name.
    pub fn name(&self) -> (r: String)
        ensures
            r@ == "X-Touch Compact"@,
    {
        "X-Touch Compact".to_owned()
    }

    /// The board's manufacturer.
    pub fn manufacturer(&self) -> (r: String)
        ensures
            r@ == "Behringer"@,
    {
        "Behringer".to_owned()
    }

    /// The board's family.
    pub fn family(&self) -> (r: Option<String>)
        ensures
            r matches Some(f) && f@ == "X-Touch"@,
    {
        Some("X-Touch".to_owned())
    }
}

/// The links bound to the board's controls, by control id. `T` is the link
/// that a control service made for the control.
pub struct ControlBindings<T> {
    pub bindings: SmallMap<u128, T>,
}

impl<T> ControlBindings<T> {
    /// No control bound.
    pub fn new() -> (r: Self)
        ensures
            r.bindings@ == Map::<u128, T>::empty(),
    {
        ControlBindings { bindings: SmallMap::new() }
    }

    /// Binds `control` to `link`, or unbinds it where `link` is `None`.
    /// Returns the link it was bound to before, which is to be unlinked.
    pub fn bind(&mut self, control: u128, link: Option<T>) -> (old_link: Option<T>)
        ensures
            final(self).bindings@ == match link {
                Some(l) => old(self).bindings@.insert(control, l),
                None => old(self).bindings@.remove(control),
            },
            old_link == if old(self).bindings@.contains_key(control) {
                Some(old(self).bindings@[control])
            } else {
                None
            },
    {
        match link {
            Some(l) => self.bindings.insert(control, l),
            None => self.bindings.remove(&control),
        }
    }
}

/// A control change from knob `k` (controller `9 + k` on the board's
/// channel) reports that knob's position, and one from fader `k` (controller
/// `k`, or 2 for faders 2 to 9 as the board is bound) that fader's: the
/// value read as a 7-bit fraction of full scale, so 127 is the top of the
/// range and 0 the bottom.
pub proof fn law_positions_read_as_7_bit(k: u8, v: U7)
    requires
        1 <= k <= 16,
    ensures
        controller_event(1, (9 + k) as u8, v) matches Some((id, ControllerEvent::Knob(ControllerKnobEvent::Pos(p))))
            && id == control_uuid(XTouchControl::Knob(k)) && p.spec_u7() == v.value() && p.spec_u16() == v.value()
            * 65535 / 127 && (v.value() == 127 ==> p.spec_u16() == 65535) && (v.value() == 0 ==> p.spec_u16() == 0),
        k <= 9 ==> (controller_event(1, k, v) matches Some(
            (id, ControllerEvent::FaderColumn(ControllerFaderColumnEvent::Fader(ControllerFaderEvent::Pos(p)))),
        ) && id == control_uuid(XTouchControl::Fader(k)) && p.spec_u7() == v.value() && p.spec_u16() == v.value()
            * 65535 / 127 && (v.value() == 127 ==> p.spec_u16() == 65535)),
{
}

} // verus!

