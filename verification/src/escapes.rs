use vstd::prelude::*;

use crate::text::str_eq;

verus! {

/// The symbolic glyph name that decodes the private-use code unit `u`, if
/// any. The four console-family tables are searched in a fixed priority
/// order (3DS, Switch, Wii, DS), so the one code unit that two families
/// share decodes to its 3DS name.
pub open spec fn spec_escape_name(u: u16) -> Option<Seq<char>> {
    match u {
        0xE000u16 => Some("A_button_3DS"@),
        0xE001u16 => Some("B_button_3DS"@),
        0xE002u16 => Some("X_button_3DS"@),
        0xE003u16 => Some("Y_button_3DS"@),
        0xE004u16 => Some("L_button_3DS"@),
        0xE005u16 => Some("R_button_3DS"@),
        0xE006u16 => Some("D_pad_3DS"@),
        0xE007u16 => Some("Clock_DS"@),
        0xE008u16 => Some("Happy_face_DS"@),
        0xE009u16 => Some("Angry_face_DS"@),
        0xE00Au16 => Some("Sad_face_DS"@),
        0xE00Bu16 => Some("Expressionless_face_DS"@),
        0xE00Cu16 => Some("Sun_DS"@),
        0xE00Du16 => Some("Cloud_DS"@),
        0xE00Eu16 => Some("Umbrella_DS"@),
        0xE00Fu16 => Some("Snowman_DS"@),
        0xE010u16 => Some("Exclamation_mark_DS"@),
        0xE011u16 => Some("Question_mark_DS"@),
        0xE012u16 => Some("Letter_DS"@),
        0xE013u16 => Some("Phone_DS"@),
        0xE014u16 => Some("Calibration_DS"@),
        0xE015u16 => Some("Spade_suit_DS"@),
        0xE016u16 => Some("Diamond_suit_DS"@),
        0xE017u16 => Some("Heart_DS"@),
        0xE018u16 => Some("Clubs_suit_DS"@),
        0xE019u16 => Some("Right_DS"@),
        0xE01Au16 => Some("Left_DS"@),
        0xE01Bu16 => Some("Up_DS"@),
        0xE01Cu16 => Some("Down_DS"@),
        0xE01Du16 => Some("Target_DS"@),
        0xE01Eu16 => Some("Camera_3DS"@),
        0xE01Fu16 => Some("Unkown_1_DS"@),
        0xE020u16 => Some("Top_left_corner_border_DS"@),
        0xE021u16 => Some("Top_border_DS"@),
        0xE022u16 => Some("Top_right_corner_border_DS"@),
        0xE023u16 => Some("Right_border_DS"@),
        0xE024u16 => Some("Bottom_right_border_DS"@),
        0xE025u16 => Some("Bottom_border_DS"@),
        0xE026u16 => Some("Bottom_left_border_DS"@),
        0xE027u16 => Some("Left_border_DS"@),
        0xE028u16 => Some("Cross_DS"@),
        0xE029u16 => Some("Boxed_A_DS"@),
        0xE02Au16 => Some("Boxed_B_DS"@),
        0xE02Bu16 => Some("Boxed_C_DS"@),
        0xE02Cu16 => Some("Boxed_D_DS"@),
        0xE02Du16 => Some("Boxed_A_inverted_DS"@),
        0xE02Eu16 => Some("Boxed_M_inverted_DS"@),
        0xE02Fu16 => Some("Unknown_2_DS"@),
        0xE030u16 => Some("P_DS"@),
        0xE031u16 => Some("I_DS"@),
        0xE032u16 => Some("C_DS"@),
        0xE033u16 => Some("T_DS"@),
        0xE034u16 => Some("H_DS"@),
        0xE035u16 => Some("A_DS"@),
        0xE036u16 => Some("Unknown_3_DS"@),
        0xE037u16 => Some("Unknown_4_DS"@),
        0xE038u16 => Some("Unknown_5_DS"@),
        0xE039u16 => Some("Unknown_6_DS"@),
        0xE03Au16 => Some("Unknown_7_DS"@),
        0xE03Bu16 => Some("Unknown_8_DS"@),
        0xE03Cu16 => Some("Unknown_9_DS"@),
        0xE03Du16 => Some("Unknown_10_DS"@),
        0xE03Eu16 => Some("Inverted_boxed_cross_DS"@),
        0xE03Fu16 => Some("Inverted_boxed_cross_big_DS"@),
        0xE040u16 => Some("Power_Wii"@),
        0xE041u16 => Some("D_pad_Wii"@),
        0xE042u16 => Some("A_button_Wii"@),
        0xE043u16 => Some("B_button_Wii"@),
        0xE044u16 => Some("Home_Wii"@),
        0xE045u16 => Some("Plus_button_Wii"@),
        0xE046u16 => Some("Minus_button_Wii"@),
        0xE047u16 => Some("1_button_Wii"@),
        0xE048u16 => Some("2_button_Wii"@),
        0xE049u16 => Some("Nunchuk_stick_Wii"@),
        0xE04Au16 => Some("C_button_Wii"@),
        0xE04Bu16 => Some("Z_button_Wii"@),
        0xE04Cu16 => Some("A_button_classic_Wii"@),
        0xE04Du16 => Some("B_button_classic_Wii"@),
        0xE04Eu16 => Some("X_button_classic_Wii"@),
        0xE04Fu16 => Some("Y_button_classic_Wii"@),
        0xE050u16 => Some("L_stick_classic_Wii"@),
        0xE051u16 => Some("R_stick_classic_Wii"@),
        0xE052u16 => Some("L_button_classic_Wii"@),
        0xE053u16 => Some("R_button_classic_Wii"@),
        0xE054u16 => Some("ZL_button_classic_Wii"@),
        0xE055u16 => Some("ZR_button_classic_Wii"@),
        0xE056u16 => Some("Newline_Wii"@),
        0xE057u16 => Some("Space_Wii"@),
        0xE058u16 => Some("Hand_pointing_Wii"@),
        0xE059u16 => Some("Hand_pointing_1P_Wii"@),
        0xE05Au16 => Some("Hand_pointing_2P_Wii"@),
        0xE05Bu16 => Some("Hand_pointing_3P_Wii"@),
        0xE05Cu16 => Some("Hand_pointing_4P_Wii"@),
        0xE05Du16 => Some("Hand_closed_Wii"@),
        0xE05Eu16 => Some("Hand_closed_1P_Wii"@),
        0xE05Fu16 => Some("Hand_closed_2P_Wii"@),
        0xE060u16 => Some("Hand_closed_3P_Wii"@),
        0xE061u16 => Some("Hand_closed_4P_Wii"@),
        0xE062u16 => Some("Hand_opened_Wii"@),
        0xE063u16 => Some("Hand_opened_1P_Wii"@),
        0xE064u16 => Some("Hand_opened_2P_Wii"@),
        0xE065u16 => Some("Hand_opened_3P_Wii"@),
        0xE066u16 => Some("Hand_opened_4P_Wii"@),
        0xE067u16 => Some("Wii_Wii"@),
        0xE068u16 => Some("er_Wii"@),
        0xE069u16 => Some("re_Wii"@),
        0xE06Au16 => Some("e_Wii"@),
        0xE06Bu16 => Some("Question_mark_Wii"@),
        0xE070u16 => Some("Close_empty_3DS"@),
        0xE071u16 => Some("Close_full_3DS"@),
        0xE072u16 => Some("Back_3DS"@),
        0xE073u16 => Some("Home_3DS"@),
        0xE074u16 => Some("Steps_3DS"@),
        0xE075u16 => Some("Play_coin_3DS"@),
        0xE076u16 => Some("Video_3DS"@),
        0xE077u16 => Some("Circle_pad_3DS"@),
        0xE078u16 => Some("Power_button_3DS"@),
        0xE079u16 => Some("D_pad_up_3DS"@),
        0xE07Au16 => Some("D_pad_down_3DS"@),
        0xE07Bu16 => Some("D_pad_left_3DS"@),
        0xE07Cu16 => Some("D_pad_right_3DS"@),
        0xE07Du16 => Some("D_pad_up_down_3DS"@),
        0xE07Eu16 => Some("D_pad_left_right_3DS"@),
        0xE0A0u16 => Some("A_button_Switch"@),
        0xE0A1u16 => Some("B_button_Switch"@),
        0xE0A2u16 => Some("X_button_Switch"@),
        0xE0A3u16 => Some("Y_button_Switch"@),
        0xE0A4u16 => Some("L_button_Switch"@),
        0xE0A5u16 => Some("R_button_Switch"@),
        0xE0A6u16 => Some("ZL_button_Switch"@),
        0xE0A7u16 => Some("ZR_button_Switch"@),
        0xE0A8u16 => Some("SL_button_Switch"@),
        0xE0A9u16 => Some("SR_button_Switch"@),
        0xE0AAu16 => Some("D_buttons_Switch"@),
        0xE0ABu16 => Some("Right_button_side_Switch"@),
        0xE0ACu16 => Some("Down_button_side_Switch"@),
        0xE0ADu16 => Some("Up_button_side_Switch"@),
        0xE0AEu16 => Some("Left_button_side_Switch"@),
        0xE0AFu16 => Some("D_button_up_Switch"@),
        0xE0B0u16 => Some("D_button_down_Switch"@),
        0xE0B1u16 => Some("D_button_left_Switch"@),
        0xE0B2u16 => Some("D_button_right_Switch"@),
        0xE0B3u16 => Some("Vol_up_Switch"@),
        0xE0B4u16 => Some("Vol_down_Switch"@),
        0xE0B5u16 => Some("Plus_Switch"@),
        0xE0B6u16 => Some("Minus_Switch"@),
        0xE0B7u16 => Some("Power_Switch"@),
        0xE0B8u16 => Some("Sleep_Switch"@),
        0xE0B9u16 => Some("Home_Switch"@),
        0xE0BAu16 => Some("Screenshot_Switch"@),
        0xE0C0u16 => Some("Stick_Switch"@),
        0xE0C1u16 => Some("Left_stick_Switch"@),
        0xE0C2u16 => Some("Right_stick_Switch"@),
        0xE0C3u16 => Some("Press_stick_Switch"@),
        0xE0C4u16 => Some("Press_left_stick_Switch"@),
        0xE0C5u16 => Some("Press_right_stick_Switch"@),
        0xE0C6u16 => Some("Rotate_counter_clockwise_left_Switch"@),
        0xE0C7u16 => Some("Rotate_counter_clockwise_right_Switch"@),
        0xE0C8u16 => Some("Rotate_clockwise_left_Switch"@),
        0xE0C9u16 => Some("Rotate_clockwise_right_Switch"@),
        0xE0D0u16 => Some("D_pad_Switch"@),
        0xE0D1u16 => Some("D_pad_up_Switch"@),
        0xE0D2u16 => Some("D_pad_down_Switch"@),
        0xE0D3u16 => Some("D_pad_left_Switch"@),
        0xE0D4u16 => Some("D_pad_right_Switch"@),
        0xE0D5u16 => Some("D_pad_up_down_Switch"@),
        0xE0D6u16 => Some("D_pad_left_right_Switch"@),
        0xE0E0u16 => Some("A_button_inverted_Switch"@),
        0xE0E1u16 => Some("B_button_inverted_Switch"@),
        0xE0E2u16 => Some("X_button_inverted_Switch"@),
        0xE0E3u16 => Some("Y_button_inverted_Switch"@),
        0xE0E4u16 => Some("L_button_inverted_Switch"@),
        0xE0E5u16 => Some("R_button_inverted_Switch"@),
        0xE0E6u16 => Some("ZL_button_inverted_Switch"@),
        0xE0E7u16 => Some("ZR_button_inverted_Switch"@),
        0xE0E8u16 => Some("SL_button_inverted_Switch"@),
        0xE0E9u16 => Some("SR_button_inverted_Switch"@),
        0xE0EAu16 => Some("D_buttons_inverted_Switch"@),
        0xE0EBu16 => Some("D_button_up_inverted_Switch"@),
        0xE0ECu16 => Some("D_button_down_inverted_Switch"@),
        0xE0EDu16 => Some("D_button_left_inverted_Switch"@),
        0xE0EEu16 => Some("D_button_right_inverted_Switch"@),
        0xE0EFu16 => Some("Vol_up_inverted_Switch"@),
        0xE0F0u16 => Some("Vol_down_inverted_Switch"@),
        0xE0F1u16 => Some("Plus_inverted_Switch"@),
        0xE0F2u16 => Some("Minus_inverted_Switch"@),
        0xE0F3u16 => Some("Power_inverted_Switch"@),
        0xE0F4u16 => Some("Home_inverted_Switch"@),
        0xE0F5u16 => Some("Screenshot_inverted_Switch"@),
        0xE100u16 => Some("Stick_inverted_Switch"@),
        0xE101u16 => Some("Left_stick_inverted_Switch"@),
        0xE102u16 => Some("Right_stick_inverted_Switch"@),
        0xE103u16 => Some("Press_stick_inverted_Switch"@),
        0xE104u16 => Some("Press_left_stick_inverted_Switch"@),
        0xE105u16 => Some("Press_right_stick_inverted_Switch"@),
        0xE110u16 => Some("D_pad_inverted_Switch"@),
        0xE111u16 => Some("D_pad_up_inverted_Switch"@),
        0xE112u16 => Some("D_pad_down_inverted_Switch"@),
        0xE113u16 => Some("D_pad_left_inverted_Switch"@),
        0xE114u16 => Some("D_pad_right_inverted_Switch"@),
        0xE115u16 => Some("D_pad_up_down_inverted_Switch"@),
        0xE116u16 => Some("D_pad_left_right_inverted_Switch"@),
        0xE121u16 => Some("Handheld_controller_Switch"@),
        0xE122u16 => Some("Both_joycons_controller_Switch"@),
        0xE123u16 => Some("Left_joycon_controller_Switch"@),
        0xE124u16 => Some("Right_joycon_controller_Switch"@),
        0xE125u16 => Some("Left_joycon_with_minus_controller_Switch"@),
        0xE126u16 => Some("Right_joycon_with_plus_controller_Switch"@),
        0xE127u16 => Some("Joycon_side_controller_Switch"@),
        0xE128u16 => Some("Left_joycon_with_minus_side_controller_Switch"@),
        0xE129u16 => Some("Right_joycon_with_plus_side_controller_Switch"@),
        0xE12Au16 => Some("Both_joycons_grip_controller_Switch"@),
        0xE12Bu16 => Some("No_joycons_grip_controller_Switch"@),
        0xE12Cu16 => Some("Pro_controller_Switch"@),
        0xE130u16 => Some("Brightness_Switch"@),
        0xE131u16 => Some("Friends_Switch"@),
        0xE132u16 => Some("News_Switch"@),
        0xE133u16 => Some("Eshop_Switch"@),
        0xE134u16 => Some("Gallery_Switch"@),
        0xE135u16 => Some("Apps_Switch"@),
        0xE136u16 => Some("Controllers_Switch"@),
        0xE137u16 => Some("Mail_Switch"@),
        0xE138u16 => Some("Phone_Switch"@),
        0xE139u16 => Some("PC_Switch"@),
        0xE13Au16 => Some("TV_Switch"@),
        0xE13Bu16 => Some("Headphone_Switch"@),
        0xE13Cu16 => Some("Sound_Switch"@),
        0xE140u16 => Some("Warning_Switch"@),
        0xE141u16 => Some("Error_Switch"@),
        0xE142u16 => Some("Tip_Switch"@),
        0xE143u16 => Some("Up_Switch"@),
        0xE144u16 => Some("Down_Switch"@),
        0xE145u16 => Some("Left_Switch"@),
        0xE146u16 => Some("Right_Switch"@),
        0xE147u16 => Some("North_Switch"@),
        0xE148u16 => Some("South_Switch"@),
        0xE149u16 => Some("West_Switch"@),
        0xE14Au16 => Some("East_Switch"@),
        0xE14Bu16 => Some("Yes_Switch"@),
        0xE14Cu16 => Some("No_Switch"@),
        0xE150u16 => Some("Warning_inverted_Switch"@),
        0xE151u16 => Some("Error_inverted_Switch"@),
        0xE152u16 => Some("Tip_inverted_Switch"@),
        _ => None,
    }
}

/// The code unit of a glyph name of the 3Ds family, if any.
pub open spec fn spec_escape_code_3ds(name: Seq<char>) -> Option<u16> {
    if name == "A_button_3DS"@ {
        Some(0xE000u16)
    } else if name == "B_button_3DS"@ {
        Some(0xE001u16)
    } else if name == "X_button_3DS"@ {
        Some(0xE002u16)
    } else if name == "Y_button_3DS"@ {
        Some(0xE003u16)
    } else if name == "L_button_3DS"@ {
        Some(0xE004u16)
    } else if name == "R_button_3DS"@ {
        Some(0xE005u16)
    } else if name == "D_pad_3DS"@ {
        Some(0xE006u16)
    } else if name == "Circle_pad_3DS"@ {
        Some(0xE077u16)
    } else if name == "Power_button_3DS"@ {
        Some(0xE078u16)
    } else if name == "D_pad_up_3DS"@ {
        Some(0xE079u16)
    } else if name == "D_pad_down_3DS"@ {
        Some(0xE07Au16)
    } else if name == "D_pad_left_3DS"@ {
        Some(0xE07Bu16)
    } else if name == "D_pad_right_3DS"@ {
        Some(0xE07Cu16)
    } else if name == "D_pad_up_down_3DS"@ {
        Some(0xE07Du16)
    } else if name == "D_pad_left_right_3DS"@ {
        Some(0xE07Eu16)
    } else if name == "Camera_3DS"@ {
        Some(0xE01Eu16)
    } else if name == "Close_empty_3DS"@ {
        Some(0xE070u16)
    } else if name == "Close_full_3DS"@ {
        Some(0xE071u16)
    } else if name == "Back_3DS"@ {
        Some(0xE072u16)
    } else if name == "Home_3DS"@ {
        Some(0xE073u16)
    } else if name == "Steps_3DS"@ {
        Some(0xE074u16)
    } else if name == "Play_coin_3DS"@ {
        Some(0xE075u16)
    } else if name == "Video_3DS"@ {
        Some(0xE076u16)
    } else {
        None
    }
}

/// The code unit of a glyph name of the Switch family, if any.
pub open spec fn spec_escape_code_switch(name: Seq<char>) -> Option<u16> {
    if name == "A_button_Switch"@ {
        Some(0xE0A0u16)
    } else if name == "B_button_Switch"@ {
        Some(0xE0A1u16)
    } else if name == "X_button_Switch"@ {
        Some(0xE0A2u16)
    } else if name == "Y_button_Switch"@ {
        Some(0xE0A3u16)
    } else if name == "L_button_Switch"@ {
        Some(0xE0A4u16)
    } else if name == "R_button_Switch"@ {
        Some(0xE0A5u16)
    } else if name == "ZL_button_Switch"@ {
        Some(0xE0A6u16)
    } else if name == "ZR_button_Switch"@ {
        Some(0xE0A7u16)
    } else if name == "SL_button_Switch"@ {
        Some(0xE0A8u16)
    } else if name == "SR_button_Switch"@ {
        Some(0xE0A9u16)
    } else if name == "D_buttons_Switch"@ {
        Some(0xE0AAu16)
    } else if name == "Right_button_side_Switch"@ {
        Some(0xE0ABu16)
    } else if name == "Down_button_side_Switch"@ {
        Some(0xE0ACu16)
    } else if name == "Up_button_side_Switch"@ {
        Some(0xE0ADu16)
    } else if name == "Left_button_side_Switch"@ {
        Some(0xE0AEu16)
    } else if name == "D_button_up_Switch"@ {
        Some(0xE0AFu16)
    } else if name == "D_button_down_Switch"@ {
        Some(0xE0B0u16)
    } else if name == "D_button_left_Switch"@ {
        Some(0xE0B1u16)
    } else if name == "D_button_right_Switch"@ {
        Some(0xE0B2u16)
    } else if name == "Vol_up_Switch"@ {
        Some(0xE0B3u16)
    } else if name == "Vol_down_Switch"@ {
        Some(0xE0B4u16)
    } else if name == "Plus_Switch"@ {
        Some(0xE0B5u16)
    } else if name == "Minus_Switch"@ {
        Some(0xE0B6u16)
    } else if name == "Power_Switch"@ {
        Some(0xE0B7u16)
    } else if name == "Sleep_Switch"@ {
        Some(0xE0B8u16)
    } else if name == "Home_Switch"@ {
        Some(0xE0B9u16)
    } else if name == "Screenshot_Switch"@ {
        Some(0xE0BAu16)
    } else if name == "Stick_Switch"@ {
        Some(0xE0C0u16)
    } else if name == "Left_stick_Switch"@ {
        Some(0xE0C1u16)
    } else if name == "Right_stick_Switch"@ {
        Some(0xE0C2u16)
    } else if name == "Press_stick_Switch"@ {
        Some(0xE0C3u16)
    } else if name == "Press_left_stick_Switch"@ {
        Some(0xE0C4u16)
    } else if name == "Press_right_stick_Switch"@ {
        Some(0xE0C5u16)
    } else if name == "Rotate_counter_clockwise_left_Switch"@ {
        Some(0xE0C6u16)
    } else if name == "Rotate_counter_clockwise_right_Switch"@ {
        Some(0xE0C7u16)
    } else if name == "Rotate_clockwise_left_Switch"@ {
        Some(0xE0C8u16)
    } else if name == "Rotate_clockwise_right_Switch"@ {
        Some(0xE0C9u16)
    } else if name == "D_pad_Switch"@ {
        Some(0xE0D0u16)
    } else if name == "D_pad_up_Switch"@ {
        Some(0xE0D1u16)
    } else if name == "D_pad_down_Switch"@ {
        Some(0xE0D2u16)
    } else if name == "D_pad_left_Switch"@ {
        Some(0xE0D3u16)
    } else if name == "D_pad_right_Switch"@ {
        Some(0xE0D4u16)
    } else if name == "D_pad_up_down_Switch"@ {
        Some(0xE0D5u16)
    } else if name == "D_pad_left_right_Switch"@ {
        Some(0xE0D6u16)
    } else if name == "A_button_inverted_Switch"@ {
        Some(0xE0E0u16)
    } else if name == "B_button_inverted_Switch"@ {
        Some(0xE0E1u16)
    } else if name == "X_button_inverted_Switch"@ {
        Some(0xE0E2u16)
    } else if name == "Y_button_inverted_Switch"@ {
        Some(0xE0E3u16)
    } else if name == "L_button_inverted_Switch"@ {
        Some(0xE0E4u16)
    } else if name == "R_button_inverted_Switch"@ {
        Some(0xE0E5u16)
    } else if name == "ZL_button_inverted_Switch"@ {
        Some(0xE0E6u16)
    } else if name == "ZR_button_inverted_Switch"@ {
        Some(0xE0E7u16)
    } else if name == "SL_button_inverted_Switch"@ {
        Some(0xE0E8u16)
    } else if name == "SR_button_inverted_Switch"@ {
        Some(0xE0E9u16)
    } else if name == "D_buttons_inverted_Switch"@ {
        Some(0xE0EAu16)
    } else if name == "D_button_up_inverted_Switch"@ {
        Some(0xE0EBu16)
    } else if name == "D_button_down_inverted_Switch"@ {
        Some(0xE0ECu16)
    } else if name == "D_button_left_inverted_Switch"@ {
        Some(0xE0EDu16)
    } else if name == "D_button_right_inverted_Switch"@ {
        Some(0xE0EEu16)
    } else if name == "Vol_up_inverted_Switch"@ {
        Some(0xE0EFu16)
    } else if name == "Vol_down_inverted_Switch"@ {
        Some(0xE0F0u16)
    } else if name == "Plus_inverted_Switch"@ {
        Some(0xE0F1u16)
    } else if name == "Minus_inverted_Switch"@ {
        Some(0xE0F2u16)
    } else if name == "Power_inverted_Switch"@ {
        Some(0xE0F3u16)
    } else if name == "Home_inverted_Switch"@ {
        Some(0xE0F4u16)
    } else if name == "Screenshot_inverted_Switch"@ {
        Some(0xE0F5u16)
    } else if name == "Stick_inverted_Switch"@ {
        Some(0xE100u16)
    } else if name == "Left_stick_inverted_Switch"@ {
        Some(0xE101u16)
    } else if name == "Right_stick_inverted_Switch"@ {
        Some(0xE102u16)
    } else if name == "Press_stick_inverted_Switch"@ {
        Some(0xE103u16)
    } else if name == "Press_left_stick_inverted_Switch"@ {
        Some(0xE104u16)
    } else if name == "Press_right_stick_inverted_Switch"@ {
        Some(0xE105u16)
    } else if name == "D_pad_inverted_Switch"@ {
        Some(0xE110u16)
    } else if name == "D_pad_up_inverted_Switch"@ {
        Some(0xE111u16)
    } else if name == "D_pad_down_inverted_Switch"@ {
        Some(0xE112u16)
    } else if name == "D_pad_left_inverted_Switch"@ {
        Some(0xE113u16)
    } else if name == "D_pad_right_inverted_Switch"@ {
        Some(0xE114u16)
    } else if name == "D_pad_up_down_inverted_Switch"@ {
        Some(0xE115u16)
    } else if name == "D_pad_left_right_inverted_Switch"@ {
        Some(0xE116u16)
    } else if name == "Handheld_controller_Switch"@ {
        Some(0xE121u16)
    } else if name == "Both_joycons_controller_Switch"@ {
        Some(0xE122u16)
    } else if name == "Left_joycon_controller_Switch"@ {
        Some(0xE123u16)
    } else if name == "Right_joycon_controller_Switch"@ {
        Some(0xE124u16)
    } else if name == "Left_joycon_with_minus_controller_Switch"@ {
        Some(0xE125u16)
    } else if name == "Right_joycon_with_plus_controller_Switch"@ {
        Some(0xE126u16)
    } else if name == "Joycon_side_controller_Switch"@ {
        Some(0xE127u16)
    } else if name == "Left_joycon_with_minus_side_controller_Switch"@ {
        Some(0xE128u16)
    } else if name == "Right_joycon_with_plus_side_controller_Switch"@ {
        Some(0xE129u16)
    } else if name == "Both_joycons_grip_controller_Switch"@ {
        Some(0xE12Au16)
    } else if name == "No_joycons_grip_controller_Switch"@ {
        Some(0xE12Bu16)
    } else if name == "Pro_controller_Switch"@ {
        Some(0xE12Cu16)
    } else if name == "Brightness_Switch"@ {
        Some(0xE130u16)
    } else if name == "Friends_Switch"@ {
        Some(0xE131u16)
    } else if name == "News_Switch"@ {
        Some(0xE132u16)
    } else if name == "Eshop_Switch"@ {
        Some(0xE133u16)
    } else if name == "Gallery_Switch"@ {
        Some(0xE134u16)
    } else if name == "Apps_Switch"@ {
        Some(0xE135u16)
    } else if name == "Controllers_Switch"@ {
        Some(0xE136u16)
    } else if name == "Mail_Switch"@ {
        Some(0xE137u16)
    } else if name == "Phone_Switch"@ {
        Some(0xE138u16)
    } else if name == "PC_Switch"@ {
        Some(0xE139u16)
    } else if name == "TV_Switch"@ {
        Some(0xE13Au16)
    } else if name == "Headphone_Switch"@ {
        Some(0xE13Bu16)
    } else if name == "Sound_Switch"@ {
        Some(0xE13Cu16)
    } else if name == "Warning_Switch"@ {
        Some(0xE140u16)
    } else if name == "Error_Switch"@ {
        Some(0xE141u16)
    } else if name == "Tip_Switch"@ {
        Some(0xE142u16)
    } else if name == "Up_Switch"@ {
        Some(0xE143u16)
    } else if name == "Down_Switch"@ {
        Some(0xE144u16)
    } else if name == "Left_Switch"@ {
        Some(0xE145u16)
    } else if name == "Right_Switch"@ {
        Some(0xE146u16)
    } else if name == "North_Switch"@ {
        Some(0xE147u16)
    } else if name == "South_Switch"@ {
        Some(0xE148u16)
    } else if name == "West_Switch"@ {
        Some(0xE149u16)
    } else if name == "East_Switch"@ {
        Some(0xE14Au16)
    } else if name == "Yes_Switch"@ {
        Some(0xE14Bu16)
    } else if name == "No_Switch"@ {
        Some(0xE14Cu16)
    } else if name == "Warning_inverted_Switch"@ {
        Some(0xE150u16)
    } else if name == "Error_inverted_Switch"@ {
        Some(0xE151u16)
    } else if name == "Tip_inverted_Switch"@ {
        Some(0xE152u16)
    } else {
        None
    }
}

/// The code unit of a glyph name of the Wii family, if any.
pub open spec fn spec_escape_code_wii(name: Seq<char>) -> Option<u16> {
    if name == "Power_Wii"@ {
        Some(0xE040u16)
    } else if name == "D_pad_Wii"@ {
        Some(0xE041u16)
    } else if name == "A_button_Wii"@ {
        Some(0xE042u16)
    } else if name == "B_button_Wii"@ {
        Some(0xE043u16)
    } else if name == "Home_Wii"@ {
        Some(0xE044u16)
    } else if name == "Plus_button_Wii"@ {
        Some(0xE045u16)
    } else if name == "Minus_button_Wii"@ {
        Some(0xE046u16)
    } else if name == "1_button_Wii"@ {
        Some(0xE047u16)
    } else if name == "2_button_Wii"@ {
        Some(0xE048u16)
    } else if name == "Nunchuk_stick_Wii"@ {
        Some(0xE049u16)
    } else if name == "C_button_Wii"@ {
        Some(0xE04Au16)
    } else if name == "Z_button_Wii"@ {
        Some(0xE04Bu16)
    } else if name == "A_button_classic_Wii"@ {
        Some(0xE04Cu16)
    } else if name == "B_button_classic_Wii"@ {
        Some(0xE04Du16)
    } else if name == "X_button_classic_Wii"@ {
        Some(0xE04Eu16)
    } else if name == "Y_button_classic_Wii"@ {
        Some(0xE04Fu16)
    } else if name == "L_stick_classic_Wii"@ {
        Some(0xE050u16)
    } else if name == "R_stick_classic_Wii"@ {
        Some(0xE051u16)
    } else if name == "L_button_classic_Wii"@ {
        Some(0xE052u16)
    } else if name == "R_button_classic_Wii"@ {
        Some(0xE053u16)
    } else if name == "ZL_button_classic_Wii"@ {
        Some(0xE054u16)
    } else if name == "ZR_button_classic_Wii"@ {
        Some(0xE055u16)
    } else if name == "Newline_Wii"@ {
        Some(0xE056u16)
    } else if name == "Space_Wii"@ {
        Some(0xE057u16)
    } else if name == "Hand_pointing_Wii"@ {
        Some(0xE058u16)
    } else if name == "Hand_pointing_1P_Wii"@ {
        Some(0xE059u16)
    } else if name == "Hand_pointing_2P_Wii"@ {
        Some(0xE05Au16)
    } else if name == "Hand_pointing_3P_Wii"@ {
        Some(0xE05Bu16)
    } else if name == "Hand_pointing_4P_Wii"@ {
        Some(0xE05Cu16)
    } else if name == "Hand_closed_Wii"@ {
        Some(0xE05Du16)
    } else if name == "Hand_closed_1P_Wii"@ {
        Some(0xE05Eu16)
    } else if name == "Hand_closed_2P_Wii"@ {
        Some(0xE05Fu16)
    } else if name == "Hand_closed_3P_Wii"@ {
        Some(0xE060u16)
    } else if name == "Hand_closed_4P_Wii"@ {
        Some(0xE061u16)
    } else if name == "Hand_opened_Wii"@ {
        Some(0xE062u16)
    } else if name == "Hand_opened_1P_Wii"@ {
        Some(0xE063u16)
    } else if name == "Hand_opened_2P_Wii"@ {
        Some(0xE064u16)
    } else if name == "Hand_opened_3P_Wii"@ {
        Some(0xE065u16)
    } else if name == "Hand_opened_4P_Wii"@ {
        Some(0xE066u16)
    } else if name == "Wii_Wii"@ {
        Some(0xE067u16)
    } else if name == "er_Wii"@ {
        Some(0xE068u16)
    } else if name == "re_Wii"@ {
        Some(0xE069u16)
    } else if name == "e_Wii"@ {
        Some(0xE06Au16)
    } else if name == "Question_mark_Wii"@ {
        Some(0xE06Bu16)
    } else {
        None
    }
}

/// The code unit of a glyph name of the Ds family, if any.
pub open spec fn spec_escape_code_ds(name: Seq<char>) -> Option<u16> {
    if name == "Clock_DS"@ {
        Some(0xE007u16)
    } else if name == "Happy_face_DS"@ {
        Some(0xE008u16)
    } else if name == "Angry_face_DS"@ {
        Some(0xE009u16)
    } else if name == "Sad_face_DS"@ {
        Some(0xE00Au16)
    } else if name == "Expressionless_face_DS"@ {
        Some(0xE00Bu16)
    } else if name == "Sun_DS"@ {
        Some(0xE00Cu16)
    } else if name == "Cloud_DS"@ {
        Some(0xE00Du16)
    } else if name == "Umbrella_DS"@ {
        Some(0xE00Eu16)
    } else if name == "Snowman_DS"@ {
        Some(0xE00Fu16)
    } else if name == "Exclamation_mark_DS"@ {
        Some(0xE010u16)
    } else if name == "Question_mark_DS"@ {
        Some(0xE011u16)
    } else if name == "Letter_DS"@ {
        Some(0xE012u16)
    } else if name == "Phone_DS"@ {
        Some(0xE013u16)
    } else if name == "Calibration_DS"@ {
        Some(0xE014u16)
    } else if name == "Spade_suit_DS"@ {
        Some(0xE015u16)
    } else if name == "Diamond_suit_DS"@ {
        Some(0xE016u16)
    } else if name == "Heart_DS"@ {
        Some(0xE017u16)
    } else if name == "Clubs_suit_DS"@ {
        Some(0xE018u16)
    } else if name == "Right_DS"@ {
        Some(0xE019u16)
    } else if name == "Left_DS"@ {
        Some(0xE01Au16)
    } else if name == "Up_DS"@ {
        Some(0xE01Bu16)
    } else if name == "Down_DS"@ {
        Some(0xE01Cu16)
    } else if name == "Target_DS"@ {
        Some(0xE01Du16)
    } else if name == "Camera_DS"@ {
        Some(0xE01Eu16)
    } else if name == "Unkown_1_DS"@ {
        Some(0xE01Fu16)
    } else if name == "Top_left_corner_border_DS"@ {
        Some(0xE020u16)
    } else if name == "Top_border_DS"@ {
        Some(0xE021u16)
    } else if name == "Top_right_corner_border_DS"@ {
        Some(0xE022u16)
    } else if name == "Right_border_DS"@ {
        Some(0xE023u16)
    } else if name == "Bottom_right_border_DS"@ {
        Some(0xE024u16)
    } else if name == "Bottom_border_DS"@ {
        Some(0xE025u16)
    } else if name == "Bottom_left_border_DS"@ {
        Some(0xE026u16)
    } else if name == "Left_border_DS"@ {
        Some(0xE027u16)
    } else if name == "Cross_DS"@ {
        Some(0xE028u16)
    } else if name == "Boxed_A_DS"@ {
        Some(0xE029u16)
    } else if name == "Boxed_B_DS"@ {
        Some(0xE02Au16)
    } else if name == "Boxed_C_DS"@ {
        Some(0xE02Bu16)
    } else if name == "Boxed_D_DS"@ {
        Some(0xE02Cu16)
    } else if name == "Boxed_A_inverted_DS"@ {
        Some(0xE02Du16)
    } else if name == "Boxed_M_inverted_DS"@ {
        Some(0xE02Eu16)
    } else if name == "Unknown_2_DS"@ {
        Some(0xE02Fu16)
    } else if name == "P_DS"@ {
        Some(0xE030u16)
    } else if name == "I_DS"@ {
        Some(0xE031u16)
    } else if name == "C_DS"@ {
        Some(0xE032u16)
    } else if name == "T_DS"@ {
        Some(0xE033u16)
    } else if name == "H_DS"@ {
        Some(0xE034u16)
    } else if name == "A_DS"@ {
        Some(0xE035u16)
    } else if name == "Unknown_3_DS"@ {
        Some(0xE036u16)
    } else if name == "Unknown_4_DS"@ {
        Some(0xE037u16)
    } else if name == "Unknown_5_DS"@ {
        Some(0xE038u16)
    } else if name == "Unknown_6_DS"@ {
        Some(0xE039u16)
    } else if name == "Unknown_7_DS"@ {
        Some(0xE03Au16)
    } else if name == "Unknown_8_DS"@ {
        Some(0xE03Bu16)
    } else if name == "Unknown_9_DS"@ {
        Some(0xE03Cu16)
    } else if name == "Unknown_10_DS"@ {
        Some(0xE03Du16)
    } else if name == "Inverted_boxed_cross_DS"@ {
        Some(0xE03Eu16)
    } else if name == "Inverted_boxed_cross_big_DS"@ {
        Some(0xE03Fu16)
    } else {
        None
    }
}

/// The code unit a glyph name encodes to, if any: the family tables are
/// tried in the fixed priority order.
pub open spec fn spec_escape_code(name: Seq<char>) -> Option<u16> {
    match spec_escape_code_3ds(name) {
        Some(c) => Some(c),
        None => match spec_escape_code_switch(name) {
            Some(c) => Some(c),
            None => match spec_escape_code_wii(name) {
                Some(c) => Some(c),
                None => spec_escape_code_ds(name),
            },
        },
    }
}

/// Looks the code unit `u` up across the four family tables.
pub fn escape_name(u: u16) -> (r: Option<&'static str>)
    ensures
        r is Some <==> spec_escape_name(u) is Some,
        r is Some ==> r.unwrap()@ == spec_escape_name(u).unwrap(),
{
    match u {
        0xE000 => Some("A_button_3DS"),
        0xE001 => Some("B_button_3DS"),
        0xE002 => Some("X_button_3DS"),
        0xE003 => Some("Y_button_3DS"),
        0xE004 => Some("L_button_3DS"),
        0xE005 => Some("R_button_3DS"),
        0xE006 => Some("D_pad_3DS"),
        0xE007 => Some("Clock_DS"),
        0xE008 => Some("Happy_face_DS"),
        0xE009 => Some("Angry_face_DS"),
        0xE00A => Some("Sad_face_DS"),
        0xE00B => Some("Expressionless_face_DS"),
        0xE00C => Some("Sun_DS"),
        0xE00D => Some("Cloud_DS"),
        0xE00E => Some("Umbrella_DS"),
        0xE00F => Some("Snowman_DS"),
        0xE010 => Some("Exclamation_mark_DS"),
        0xE011 => Some("Question_mark_DS"),
        0xE012 => Some("Letter_DS"),
        0xE013 => Some("Phone_DS"),
        0xE014 => Some("Calibration_DS"),
        0xE015 => Some("Spade_suit_DS"),
        0xE016 => Some("Diamond_suit_DS"),
        0xE017 => Some("Heart_DS"),
        0xE018 => Some("Clubs_suit_DS"),
        0xE019 => Some("Right_DS"),
        0xE01A => Some("Left_DS"),
        0xE01B => Some("Up_DS"),
        0xE01C => Some("Down_DS"),
        0xE01D => Some("Target_DS"),
        0xE01E => Some("Camera_3DS"),
        0xE01F => Some("Unkown_1_DS"),
        0xE020 => Some("Top_left_corner_border_DS"),
        0xE021 => Some("Top_border_DS"),
        0xE022 => Some("Top_right_corner_border_DS"),
        0xE023 => Some("Right_border_DS"),
        0xE024 => Some("Bottom_right_border_DS"),
        0xE025 => Some("Bottom_border_DS"),
        0xE026 => Some("Bottom_left_border_DS"),
        0xE027 => Some("Left_border_DS"),
        0xE028 => Some("Cross_DS"),
        0xE029 => Some("Boxed_A_DS"),
        0xE02A => Some("Boxed_B_DS"),
        0xE02B => Some("Boxed_C_DS"),
        0xE02C => Some("Boxed_D_DS"),
        0xE02D => Some("Boxed_A_inverted_DS"),
        0xE02E => Some("Boxed_M_inverted_DS"),
        0xE02F => Some("Unknown_2_DS"),
        0xE030 => Some("P_DS"),
        0xE031 => Some("I_DS"),
        0xE032 => Some("C_DS"),
        0xE033 => Some("T_DS"),
        0xE034 => Some("H_DS"),
        0xE035 => Some("A_DS"),
        0xE036 => Some("Unknown_3_DS"),
        0xE037 => Some("Unknown_4_DS"),
        0xE038 => Some("Unknown_5_DS"),
        0xE039 => Some("Unknown_6_DS"),
        0xE03A => Some("Unknown_7_DS"),
        0xE03B => Some("Unknown_8_DS"),
        0xE03C => Some("Unknown_9_DS"),
        0xE03D => Some("Unknown_10_DS"),
        0xE03E => Some("Inverted_boxed_cross_DS"),
        0xE03F => Some("Inverted_boxed_cross_big_DS"),
        0xE040 => Some("Power_Wii"),
        0xE041 => Some("D_pad_Wii"),
        0xE042 => Some("A_button_Wii"),
        0xE043 => Some("B_button_Wii"),
        0xE044 => Some("Home_Wii"),
        0xE045 => Some("Plus_button_Wii"),
        0xE046 => Some("Minus_button_Wii"),
        0xE047 => Some("1_button_Wii"),
        0xE048 => Some("2_button_Wii"),
        0xE049 => Some("Nunchuk_stick_Wii"),
        0xE04A => Some("C_button_Wii"),
        0xE04B => Some("Z_button_Wii"),
        0xE04C => Some("A_button_classic_Wii"),
        0xE04D => Some("B_button_classic_Wii"),
        0xE04E => Some("X_button_classic_Wii"),
        0xE04F => Some("Y_button_classic_Wii"),
        0xE050 => Some("L_stick_classic_Wii"),
        0xE051 => Some("R_stick_classic_Wii"),
        0xE052 => Some("L_button_classic_Wii"),
        0xE053 => Some("R_button_classic_Wii"),
        0xE054 => Some("ZL_button_classic_Wii"),
        0xE055 => Some("ZR_button_classic_Wii"),
        0xE056 => Some("Newline_Wii"),
        0xE057 => Some("Space_Wii"),
        0xE058 => Some("Hand_pointing_Wii"),
        0xE059 => Some("Hand_pointing_1P_Wii"),
        0xE05A => Some("Hand_pointing_2P_Wii"),
        0xE05B => Some("Hand_pointing_3P_Wii"),
        0xE05C => Some("Hand_pointing_4P_Wii"),
        0xE05D => Some("Hand_closed_Wii"),
        0xE05E => Some("Hand_closed_1P_Wii"),
        0xE05F => Some("Hand_closed_2P_Wii"),
        0xE060 => Some("Hand_closed_3P_Wii"),
        0xE061 => Some("Hand_closed_4P_Wii"),
        0xE062 => Some("Hand_opened_Wii"),
        0xE063 => Some("Hand_opened_1P_Wii"),
        0xE064 => Some("Hand_opened_2P_Wii"),
        0xE065 => Some("Hand_opened_3P_Wii"),
        0xE066 => Some("Hand_opened_4P_Wii"),
        0xE067 => Some("Wii_Wii"),
        0xE068 => Some("er_Wii"),
        0xE069 => Some("re_Wii"),
        0xE06A => Some("e_Wii"),
        0xE06B => Some("Question_mark_Wii"),
        0xE070 => Some("Close_empty_3DS"),
        0xE071 => Some("Close_full_3DS"),
        0xE072 => Some("Back_3DS"),
        0xE073 => Some("Home_3DS"),
        0xE074 => Some("Steps_3DS"),
        0xE075 => Some("Play_coin_3DS"),
        0xE076 => Some("Video_3DS"),
        0xE077 => Some("Circle_pad_3DS"),
        0xE078 => Some("Power_button_3DS"),
        0xE079 => Some("D_pad_up_3DS"),
        0xE07A => Some("D_pad_down_3DS"),
        0xE07B => Some("D_pad_left_3DS"),
        0xE07C => Some("D_pad_right_3DS"),
        0xE07D => Some("D_pad_up_down_3DS"),
        0xE07E => Some("D_pad_left_right_3DS"),
        0xE0A0 => Some("A_button_Switch"),
        0xE0A1 => Some("B_button_Switch"),
        0xE0A2 => Some("X_button_Switch"),
        0xE0A3 => Some("Y_button_Switch"),
        0xE0A4 => Some("L_button_Switch"),
        0xE0A5 => Some("R_button_Switch"),
        0xE0A6 => Some("ZL_button_Switch"),
        0xE0A7 => Some("ZR_button_Switch"),
        0xE0A8 => Some("SL_button_Switch"),
        0xE0A9 => Some("SR_button_Switch"),
        0xE0AA => Some("D_buttons_Switch"),
        0xE0AB => Some("Right_button_side_Switch"),
        0xE0AC => Some("Down_button_side_Switch"),
        0xE0AD => Some("Up_button_side_Switch"),
        0xE0AE => Some("Left_button_side_Switch"),
        0xE0AF => Some("D_button_up_Switch"),
        0xE0B0 => Some("D_button_down_Switch"),
        0xE0B1 => Some("D_button_left_Switch"),
        0xE0B2 => Some("D_button_right_Switch"),
        0xE0B3 => Some("Vol_up_Switch"),
        0xE0B4 => Some("Vol_down_Switch"),
        0xE0B5 => Some("Plus_Switch"),
        0xE0B6 => Some("Minus_Switch"),
        0xE0B7 => Some("Power_Switch"),
        0xE0B8 => Some("Sleep_Switch"),
        0xE0B9 => Some("Home_Switch"),
        0xE0BA => Some("Screenshot_Switch"),
        0xE0C0 => Some("Stick_Switch"),
        0xE0C1 => Some("Left_stick_Switch"),
        0xE0C2 => Some("Right_stick_Switch"),
        0xE0C3 => Some("Press_stick_Switch"),
        0xE0C4 => Some("Press_left_stick_Switch"),
        0xE0C5 => Some("Press_right_stick_Switch"),
        0xE0C6 => Some("Rotate_counter_clockwise_left_Switch"),
        0xE0C7 => Some("Rotate_counter_clockwise_right_Switch"),
        0xE0C8 => Some("Rotate_clockwise_left_Switch"),
        0xE0C9 => Some("Rotate_clockwise_right_Switch"),
        0xE0D0 => Some("D_pad_Switch"),
        0xE0D1 => Some("D_pad_up_Switch"),
        0xE0D2 => Some("D_pad_down_Switch"),
        0xE0D3 => Some("D_pad_left_Switch"),
        0xE0D4 => Some("D_pad_right_Switch"),
        0xE0D5 => Some("D_pad_up_down_Switch"),
        0xE0D6 => Some("D_pad_left_right_Switch"),
        0xE0E0 => Some("A_button_inverted_Switch"),
        0xE0E1 => Some("B_button_inverted_Switch"),
        0xE0E2 => Some("X_button_inverted_Switch"),
        0xE0E3 => Some("Y_button_inverted_Switch"),
        0xE0E4 => Some("L_button_inverted_Switch"),
        0xE0E5 => Some("R_button_inverted_Switch"),
        0xE0E6 => Some("ZL_button_inverted_Switch"),
        0xE0E7 => Some("ZR_button_inverted_Switch"),
        0xE0E8 => Some("SL_button_inverted_Switch"),
        0xE0E9 => Some("SR_button_inverted_Switch"),
        0xE0EA => Some("D_buttons_inverted_Switch"),
        0xE0EB => Some("D_button_up_inverted_Switch"),
        0xE0EC => Some("D_button_down_inverted_Switch"),
        0xE0ED => Some("D_button_left_inverted_Switch"),
        0xE0EE => Some("D_button_right_inverted_Switch"),
        0xE0EF => Some("Vol_up_inverted_Switch"),
        0xE0F0 => Some("Vol_down_inverted_Switch"),
        0xE0F1 => Some("Plus_inverted_Switch"),
        0xE0F2 => Some("Minus_inverted_Switch"),
        0xE0F3 => Some("Power_inverted_Switch"),
        0xE0F4 => Some("Home_inverted_Switch"),
        0xE0F5 => Some("Screenshot_inverted_Switch"),
        0xE100 => Some("Stick_inverted_Switch"),
        0xE101 => Some("Left_stick_inverted_Switch"),
        0xE102 => Some("Right_stick_inverted_Switch"),
        0xE103 => Some("Press_stick_inverted_Switch"),
        0xE104 => Some("Press_left_stick_inverted_Switch"),
        0xE105 => Some("Press_right_stick_inverted_Switch"),
        0xE110 => Some("D_pad_inverted_Switch"),
        0xE111 => Some("D_pad_up_inverted_Switch"),
        0xE112 => Some("D_pad_down_inverted_Switch"),
        0xE113 => Some("D_pad_left_inverted_Switch"),
        0xE114 => Some("D_pad_right_inverted_Switch"),
        0xE115 => Some("D_pad_up_down_inverted_Switch"),
        0xE116 => Some("D_pad_left_right_inverted_Switch"),
        0xE121 => Some("Handheld_controller_Switch"),
        0xE122 => Some("Both_joycons_controller_Switch"),
        0xE123 => Some("Left_joycon_controller_Switch"),
        0xE124 => Some("Right_joycon_controller_Switch"),
        0xE125 => Some("Left_joycon_with_minus_controller_Switch"),
        0xE126 => Some("Right_joycon_with_plus_controller_Switch"),
        0xE127 => Some("Joycon_side_controller_Switch"),
        0xE128 => Some("Left_joycon_with_minus_side_controller_Switch"),
        0xE129 => Some("Right_joycon_with_plus_side_controller_Switch"),
        0xE12A => Some("Both_joycons_grip_controller_Switch"),
        0xE12B => Some("No_joycons_grip_controller_Switch"),
        0xE12C => Some("Pro_controller_Switch"),
        0xE130 => Some("Brightness_Switch"),
        0xE131 => Some("Friends_Switch"),
        0xE132 => Some("News_Switch"),
        0xE133 => Some("Eshop_Switch"),
        0xE134 => Some("Gallery_Switch"),
        0xE135 => Some("Apps_Switch"),
        0xE136 => Some("Controllers_Switch"),
        0xE137 => Some("Mail_Switch"),
        0xE138 => Some("Phone_Switch"),
        0xE139 => Some("PC_Switch"),
        0xE13A => Some("TV_Switch"),
        0xE13B => Some("Headphone_Switch"),
        0xE13C => Some("Sound_Switch"),
        0xE140 => Some("Warning_Switch"),
        0xE141 => Some("Error_Switch"),
        0xE142 => Some("Tip_Switch"),
        0xE143 => Some("Up_Switch"),
        0xE144 => Some("Down_Switch"),
        0xE145 => Some("Left_Switch"),
        0xE146 => Some("Right_Switch"),
        0xE147 => Some("North_Switch"),
        0xE148 => Some("South_Switch"),
        0xE149 => Some("West_Switch"),
        0xE14A => Some("East_Switch"),
        0xE14B => Some("Yes_Switch"),
        0xE14C => Some("No_Switch"),
        0xE150 => Some("Warning_inverted_Switch"),
        0xE151 => Some("Error_inverted_Switch"),
        0xE152 => Some("Tip_inverted_Switch"),
        _ => None,
    }
}

fn escape_code_3ds(name: &str) -> (r: Option<u16>)
    ensures
        r == spec_escape_code_3ds(name@),
{
    if str_eq(name, "A_button_3DS") {
        Some(0xE000)
    } else if str_eq(name, "B_button_3DS") {
        Some(0xE001)
    } else if str_eq(name, "X_button_3DS") {
        Some(0xE002)
    } else if str_eq(name, "Y_button_3DS") {
        Some(0xE003)
    } else if str_eq(name, "L_button_3DS") {
        Some(0xE004)
    } else if str_eq(name, "R_button_3DS") {
        Some(0xE005)
    } else if str_eq(name, "D_pad_3DS") {
        Some(0xE006)
    } else if str_eq(name, "Circle_pad_3DS") {
        Some(0xE077)
    } else if str_eq(name, "Power_button_3DS") {
        Some(0xE078)
    } else if str_eq(name, "D_pad_up_3DS") {
        Some(0xE079)
    } else if str_eq(name, "D_pad_down_3DS") {
        Some(0xE07A)
    } else if str_eq(name, "D_pad_left_3DS") {
        Some(0xE07B)
    } else if str_eq(name, "D_pad_right_3DS") {
        Some(0xE07C)
    } else if str_eq(name, "D_pad_up_down_3DS") {
        Some(0xE07D)
    } else if str_eq(name, "D_pad_left_right_3DS") {
        Some(0xE07E)
    } else if str_eq(name, "Camera_3DS") {
        Some(0xE01E)
    } else if str_eq(name, "Close_empty_3DS") {
        Some(0xE070)
    } else if str_eq(name, "Close_full_3DS") {
        Some(0xE071)
    } else if str_eq(name, "Back_3DS") {
        Some(0xE072)
    } else if str_eq(name, "Home_3DS") {
        Some(0xE073)
    } else if str_eq(name, "Steps_3DS") {
        Some(0xE074)
    } else if str_eq(name, "Play_coin_3DS") {
        Some(0xE075)
    } else if str_eq(name, "Video_3DS") {
        Some(0xE076)
    } else {
        None
    }
}

fn escape_code_switch(name: &str) -> (r: Option<u16>)
    ensures
        r == spec_escape_code_switch(name@),
{
    if str_eq(name, "A_button_Switch") {
        Some(0xE0A0)
    } else if str_eq(name, "B_button_Switch") {
        Some(0xE0A1)
    } else if str_eq(name, "X_button_Switch") {
        Some(0xE0A2)
    } else if str_eq(name, "Y_button_Switch") {
        Some(0xE0A3)
    } else if str_eq(name, "L_button_Switch") {
        Some(0xE0A4)
    } else if str_eq(name, "R_button_Switch") {
        Some(0xE0A5)
    } else if str_eq(name, "ZL_button_Switch") {
        Some(0xE0A6)
    } else if str_eq(name, "ZR_button_Switch") {
        Some(0xE0A7)
    } else if str_eq(name, "SL_button_Switch") {
        Some(0xE0A8)
    } else if str_eq(name, "SR_button_Switch") {
        Some(0xE0A9)
    } else if str_eq(name, "D_buttons_Switch") {
        Some(0xE0AA)
    } else if str_eq(name, "Right_button_side_Switch") {
        Some(0xE0AB)
    } else if str_eq(name, "Down_button_side_Switch") {
        Some(0xE0AC)
    } else if str_eq(name, "Up_button_side_Switch") {
        Some(0xE0AD)
    } else if str_eq(name, "Left_button_side_Switch") {
        Some(0xE0AE)
    } else if str_eq(name, "D_button_up_Switch") {
        Some(0xE0AF)
    } else if str_eq(name, "D_button_down_Switch") {
        Some(0xE0B0)
    } else if str_eq(name, "D_button_left_Switch") {
        Some(0xE0B1)
    } else if str_eq(name, "D_button_right_Switch") {
        Some(0xE0B2)
    } else if str_eq(name, "Vol_up_Switch") {
        Some(0xE0B3)
    } else if str_eq(name, "Vol_down_Switch") {
        Some(0xE0B4)
    } else if str_eq(name, "Plus_Switch") {
        Some(0xE0B5)
    } else if str_eq(name, "Minus_Switch") {
        Some(0xE0B6)
    } else if str_eq(name, "Power_Switch") {
        Some(0xE0B7)
    } else if str_eq(name, "Sleep_Switch") {
        Some(0xE0B8)
    } else if str_eq(name, "Home_Switch") {
        Some(0xE0B9)
    } else if str_eq(name, "Screenshot_Switch") {
        Some(0xE0BA)
    } else if str_eq(name, "Stick_Switch") {
        Some(0xE0C0)
    } else if str_eq(name, "Left_stick_Switch") {
        Some(0xE0C1)
    } else if str_eq(name, "Right_stick_Switch") {
        Some(0xE0C2)
    } else if str_eq(name, "Press_stick_Switch") {
        Some(0xE0C3)
    } else if str_eq(name, "Press_left_stick_Switch") {
        Some(0xE0C4)
    } else if str_eq(name, "Press_right_stick_Switch") {
        Some(0xE0C5)
    } else if str_eq(name, "Rotate_counter_clockwise_left_Switch") {
        Some(0xE0C6)
    } else if str_eq(name, "Rotate_counter_clockwise_right_Switch") {
        Some(0xE0C7)
    } else if str_eq(name, "Rotate_clockwise_left_Switch") {
        Some(0xE0C8)
    } else if str_eq(name, "Rotate_clockwise_right_Switch") {
        Some(0xE0C9)
    } else if str_eq(name, "D_pad_Switch") {
        Some(0xE0D0)
    } else if str_eq(name, "D_pad_up_Switch") {
        Some(0xE0D1)
    } else if str_eq(name, "D_pad_down_Switch") {
        Some(0xE0D2)
    } else if str_eq(name, "D_pad_left_Switch") {
        Some(0xE0D3)
    } else if str_eq(name, "D_pad_right_Switch") {
        Some(0xE0D4)
    } else if str_eq(name, "D_pad_up_down_Switch") {
        Some(0xE0D5)
    } else if str_eq(name, "D_pad_left_right_Switch") {
        Some(0xE0D6)
    } else if str_eq(name, "A_button_inverted_Switch") {
        Some(0xE0E0)
    } else if str_eq(name, "B_button_inverted_Switch") {
        Some(0xE0E1)
    } else if str_eq(name, "X_button_inverted_Switch") {
        Some(0xE0E2)
    } else if str_eq(name, "Y_button_inverted_Switch") {
        Some(0xE0E3)
    } else if str_eq(name, "L_button_inverted_Switch") {
        Some(0xE0E4)
    } else if str_eq(name, "R_button_inverted_Switch") {
        Some(0xE0E5)
    } else if str_eq(name, "ZL_button_inverted_Switch") {
        Some(0xE0E6)
    } else if str_eq(name, "ZR_button_inverted_Switch") {
        Some(0xE0E7)
    } else if str_eq(name, "SL_button_inverted_Switch") {
        Some(0xE0E8)
    } else if str_eq(name, "SR_button_inverted_Switch") {
        Some(0xE0E9)
    } else if str_eq(name, "D_buttons_inverted_Switch") {
        Some(0xE0EA)
    } else if str_eq(name, "D_button_up_inverted_Switch") {
        Some(0xE0EB)
    } else if str_eq(name, "D_button_down_inverted_Switch") {
        Some(0xE0EC)
    } else if str_eq(name, "D_button_left_inverted_Switch") {
        Some(0xE0ED)
    } else if str_eq(name, "D_button_right_inverted_Switch") {
        Some(0xE0EE)
    } else if str_eq(name, "Vol_up_inverted_Switch") {
        Some(0xE0EF)
    } else if str_eq(name, "Vol_down_inverted_Switch") {
        Some(0xE0F0)
    } else if str_eq(name, "Plus_inverted_Switch") {
        Some(0xE0F1)
    } else if str_eq(name, "Minus_inverted_Switch") {
        Some(0xE0F2)
    } else if str_eq(name, "Power_inverted_Switch") {
        Some(0xE0F3)
    } else if str_eq(name, "Home_inverted_Switch") {
        Some(0xE0F4)
    } else if str_eq(name, "Screenshot_inverted_Switch") {
        Some(0xE0F5)
    } else if str_eq(name, "Stick_inverted_Switch") {
        Some(0xE100)
    } else if str_eq(name, "Left_stick_inverted_Switch") {
        Some(0xE101)
    } else if str_eq(name, "Right_stick_inverted_Switch") {
        Some(0xE102)
    } else if str_eq(name, "Press_stick_inverted_Switch") {
        Some(0xE103)
    } else if str_eq(name, "Press_left_stick_inverted_Switch") {
        Some(0xE104)
    } else if str_eq(name, "Press_right_stick_inverted_Switch") {
        Some(0xE105)
    } else if str_eq(name, "D_pad_inverted_Switch") {
        Some(0xE110)
    } else if str_eq(name, "D_pad_up_inverted_Switch") {
        Some(0xE111)
    } else if str_eq(name, "D_pad_down_inverted_Switch") {
        Some(0xE112)
    } else if str_eq(name, "D_pad_left_inverted_Switch") {
        Some(0xE113)
    } else if str_eq(name, "D_pad_right_inverted_Switch") {
        Some(0xE114)
    } else if str_eq(name, "D_pad_up_down_inverted_Switch") {
        Some(0xE115)
    } else if str_eq(name, "D_pad_left_right_inverted_Switch") {
        Some(0xE116)
    } else if str_eq(name, "Handheld_controller_Switch") {
        Some(0xE121)
    } else if str_eq(name, "Both_joycons_controller_Switch") {
        Some(0xE122)
    } else if str_eq(name, "Left_joycon_controller_Switch") {
        Some(0xE123)
    } else if str_eq(name, "Right_joycon_controller_Switch") {
        Some(0xE124)
    } else if str_eq(name, "Left_joycon_with_minus_controller_Switch") {
        Some(0xE125)
    } else if str_eq(name, "Right_joycon_with_plus_controller_Switch") {
        Some(0xE126)
    } else if str_eq(name, "Joycon_side_controller_Switch") {
        Some(0xE127)
    } else if str_eq(name, "Left_joycon_with_minus_side_controller_Switch") {
        Some(0xE128)
    } else if str_eq(name, "Right_joycon_with_plus_side_controller_Switch") {
        Some(0xE129)
    } else if str_eq(name, "Both_joycons_grip_controller_Switch") {
        Some(0xE12A)
    } else if str_eq(name, "No_joycons_grip_controller_Switch") {
        Some(0xE12B)
    } else if str_eq(name, "Pro_controller_Switch") {
        Some(0xE12C)
    } else if str_eq(name, "Brightness_Switch") {
        Some(0xE130)
    } else if str_eq(name, "Friends_Switch") {
        Some(0xE131)
    } else if str_eq(name, "News_Switch") {
        Some(0xE132)
    } else if str_eq(name, "Eshop_Switch") {
        Some(0xE133)
    } else if str_eq(name, "Gallery_Switch") {
        Some(0xE134)
    } else if str_eq(name, "Apps_Switch") {
        Some(0xE135)
    } else if str_eq(name, "Controllers_Switch") {
        Some(0xE136)
    } else if str_eq(name, "Mail_Switch") {
        Some(0xE137)
    } else if str_eq(name, "Phone_Switch") {
        Some(0xE138)
    } else if str_eq(name, "PC_Switch") {
        Some(0xE139)
    } else if str_eq(name, "TV_Switch") {
        Some(0xE13A)
    } else if str_eq(name, "Headphone_Switch") {
        Some(0xE13B)
    } else if str_eq(name, "Sound_Switch") {
        Some(0xE13C)
    } else if str_eq(name, "Warning_Switch") {
        Some(0xE140)
    } else if str_eq(name, "Error_Switch") {
        Some(0xE141)
    } else if str_eq(name, "Tip_Switch") {
        Some(0xE142)
    } else if str_eq(name, "Up_Switch") {
        Some(0xE143)
    } else if str_eq(name, "Down_Switch") {
        Some(0xE144)
    } else if str_eq(name, "Left_Switch") {
        Some(0xE145)
    } else if str_eq(name, "Right_Switch") {
        Some(0xE146)
    } else if str_eq(name, "North_Switch") {
        Some(0xE147)
    } else if str_eq(name, "South_Switch") {
        Some(0xE148)
    } else if str_eq(name, "West_Switch") {
        Some(0xE149)
    } else if str_eq(name, "East_Switch") {
        Some(0xE14A)
    } else if str_eq(name, "Yes_Switch") {
        Some(0xE14B)
    } else if str_eq(name, "No_Switch") {
        Some(0xE14C)
    } else if str_eq(name, "Warning_inverted_Switch") {
        Some(0xE150)
    } else if str_eq(name, "Error_inverted_Switch") {
        Some(0xE151)
    } else if str_eq(name, "Tip_inverted_Switch") {
        Some(0xE152)
    } else {
        None
    }
}

fn escape_code_wii(name: &str) -> (r: Option<u16>)
    ensures
        r == spec_escape_code_wii(name@),
{
    if str_eq(name, "Power_Wii") {
        Some(0xE040)
    } else if str_eq(name, "D_pad_Wii") {
        Some(0xE041)
    } else if str_eq(name, "A_button_Wii") {
        Some(0xE042)
    } else if str_eq(name, "B_button_Wii") {
        Some(0xE043)
    } else if str_eq(name, "Home_Wii") {
        Some(0xE044)
    } else if str_eq(name, "Plus_button_Wii") {
        Some(0xE045)
    } else if str_eq(name, "Minus_button_Wii") {
        Some(0xE046)
    } else if str_eq(name, "1_button_Wii") {
        Some(0xE047)
    } else if str_eq(name, "2_button_Wii") {
        Some(0xE048)
    } else if str_eq(name, "Nunchuk_stick_Wii") {
        Some(0xE049)
    } else if str_eq(name, "C_button_Wii") {
        Some(0xE04A)
    } else if str_eq(name, "Z_button_Wii") {
        Some(0xE04B)
    } else if str_eq(name, "A_button_classic_Wii") {
        Some(0xE04C)
    } else if str_eq(name, "B_button_classic_Wii") {
        Some(0xE04D)
    } else if str_eq(name, "X_button_classic_Wii") {
        Some(0xE04E)
    } else if str_eq(name, "Y_button_classic_Wii") {
        Some(0xE04F)
    } else if str_eq(name, "L_stick_classic_Wii") {
        Some(0xE050)
    } else if str_eq(name, "R_stick_classic_Wii") {
        Some(0xE051)
    } else if str_eq(name, "L_button_classic_Wii") {
        Some(0xE052)
    } else if str_eq(name, "R_button_classic_Wii") {
        Some(0xE053)
    } else if str_eq(name, "ZL_button_classic_Wii") {
        Some(0xE054)
    } else if str_eq(name, "ZR_button_classic_Wii") {
        Some(0xE055)
    } else if str_eq(name, "Newline_Wii") {
        Some(0xE056)
    } else if str_eq(name, "Space_Wii") {
        Some(0xE057)
    } else if str_eq(name, "Hand_pointing_Wii") {
        Some(0xE058)
    } else if str_eq(name, "Hand_pointing_1P_Wii") {
        Some(0xE059)
    } else if str_eq(name, "Hand_pointing_2P_Wii") {
        Some(0xE05A)
    } else if str_eq(name, "Hand_pointing_3P_Wii") {
        Some(0xE05B)
    } else if str_eq(name, "Hand_pointing_4P_Wii") {
        Some(0xE05C)
    } else if str_eq(name, "Hand_closed_Wii") {
        Some(0xE05D)
    } else if str_eq(name, "Hand_closed_1P_Wii") {
        Some(0xE05E)
    } else if str_eq(name, "Hand_closed_2P_Wii") {
        Some(0xE05F)
    } else if str_eq(name, "Hand_closed_3P_Wii") {
        Some(0xE060)
    } else if str_eq(name, "Hand_closed_4P_Wii") {
        Some(0xE061)
    } else if str_eq(name, "Hand_opened_Wii") {
        Some(0xE062)
    } else if str_eq(name, "Hand_opened_1P_Wii") {
        Some(0xE063)
    } else if str_eq(name, "Hand_opened_2P_Wii") {
        Some(0xE064)
    } else if str_eq(name, "Hand_opened_3P_Wii") {
        Some(0xE065)
    } else if str_eq(name, "Hand_opened_4P_Wii") {
        Some(0xE066)
    } else if str_eq(name, "Wii_Wii") {
        Some(0xE067)
    } else if str_eq(name, "er_Wii") {
        Some(0xE068)
    } else if str_eq(name, "re_Wii") {
        Some(0xE069)
    } else if str_eq(name, "e_Wii") {
        Some(0xE06A)
    } else if str_eq(name, "Question_mark_Wii") {
        Some(0xE06B)
    } else {
        None
    }
}

fn escape_code_ds(name: &str) -> (r: Option<u16>)
    ensures
        r == spec_escape_code_ds(name@),
{
    if str_eq(name, "Clock_DS") {
        Some(0xE007)
    } else if str_eq(name, "Happy_face_DS") {
        Some(0xE008)
    } else if str_eq(name, "Angry_face_DS") {
        Some(0xE009)
    } else if str_eq(name, "Sad_face_DS") {
        Some(0xE00A)
    } else if str_eq(name, "Expressionless_face_DS") {
        Some(0xE00B)
    } else if str_eq(name, "Sun_DS") {
        Some(0xE00C)
    } else if str_eq(name, "Cloud_DS") {
        Some(0xE00D)
    } else if str_eq(name, "Umbrella_DS") {
        Some(0xE00E)
    } else if str_eq(name, "Snowman_DS") {
        Some(0xE00F)
    } else if str_eq(name, "Exclamation_mark_DS") {
        Some(0xE010)
    } else if str_eq(name, "Question_mark_DS") {
        Some(0xE011)
    } else if str_eq(name, "Letter_DS") {
        Some(0xE012)
    } else if str_eq(name, "Phone_DS") {
        Some(0xE013)
    } else if str_eq(name, "Calibration_DS") {
        Some(0xE014)
    } else if str_eq(name, "Spade_suit_DS") {
        Some(0xE015)
    } else if str_eq(name, "Diamond_suit_DS") {
        Some(0xE016)
    } else if str_eq(name, "Heart_DS") {
        Some(0xE017)
    } else if str_eq(name, "Clubs_suit_DS") {
        Some(0xE018)
    } else if str_eq(name, "Right_DS") {
        Some(0xE019)
    } else if str_eq(name, "Left_DS") {
        Some(0xE01A)
    } else if str_eq(name, "Up_DS") {
        Some(0xE01B)
    } else if str_eq(name, "Down_DS") {
        Some(0xE01C)
    } else if str_eq(name, "Target_DS") {
        Some(0xE01D)
    } else if str_eq(name, "Camera_DS") {
        Some(0xE01E)
    } else if str_eq(name, "Unkown_1_DS") {
        Some(0xE01F)
    } else if str_eq(name, "Top_left_corner_border_DS") {
        Some(0xE020)
    } else if str_eq(name, "Top_border_DS") {
        Some(0xE021)
    } else if str_eq(name, "Top_right_corner_border_DS") {
        Some(0xE022)
    } else if str_eq(name, "Right_border_DS") {
        Some(0xE023)
    } else if str_eq(name, "Bottom_right_border_DS") {
        Some(0xE024)
    } else if str_eq(name, "Bottom_border_DS") {
        Some(0xE025)
    } else if str_eq(name, "Bottom_left_border_DS") {
        Some(0xE026)
    } else if str_eq(name, "Left_border_DS") {
        Some(0xE027)
    } else if str_eq(name, "Cross_DS") {
        Some(0xE028)
    } else if str_eq(name, "Boxed_A_DS") {
        Some(0xE029)
    } else if str_eq(name, "Boxed_B_DS") {
        Some(0xE02A)
    } else if str_eq(name, "Boxed_C_DS") {
        Some(0xE02B)
    } else if str_eq(name, "Boxed_D_DS") {
        Some(0xE02C)
    } else if str_eq(name, "Boxed_A_inverted_DS") {
        Some(0xE02D)
    } else if str_eq(name, "Boxed_M_inverted_DS") {
        Some(0xE02E)
    } else if str_eq(name, "Unknown_2_DS") {
        Some(0xE02F)
    } else if str_eq(name, "P_DS") {
        Some(0xE030)
    } else if str_eq(name, "I_DS") {
        Some(0xE031)
    } else if str_eq(name, "C_DS") {
        Some(0xE032)
    } else if str_eq(name, "T_DS") {
        Some(0xE033)
    } else if str_eq(name, "H_DS") {
        Some(0xE034)
    } else if str_eq(name, "A_DS") {
        Some(0xE035)
    } else if str_eq(name, "Unknown_3_DS") {
        Some(0xE036)
    } else if str_eq(name, "Unknown_4_DS") {
        Some(0xE037)
    } else if str_eq(name, "Unknown_5_DS") {
        Some(0xE038)
    } else if str_eq(name, "Unknown_6_DS") {
        Some(0xE039)
    } else if str_eq(name, "Unknown_7_DS") {
        Some(0xE03A)
    } else if str_eq(name, "Unknown_8_DS") {
        Some(0xE03B)
    } else if str_eq(name, "Unknown_9_DS") {
        Some(0xE03C)
    } else if str_eq(name, "Unknown_10_DS") {
        Some(0xE03D)
    } else if str_eq(name, "Inverted_boxed_cross_DS") {
        Some(0xE03E)
    } else if str_eq(name, "Inverted_boxed_cross_big_DS") {
        Some(0xE03F)
    } else {
        None
    }
}

/// Looks the glyph name up across the four family tables, in priority
/// order.
pub fn escape_code(name: &str) -> (r: Option<u16>)
    ensures
        r == spec_escape_code(name@),
{
    match escape_code_3ds(name) {
        Option::Some(c) => Some(c),
        Option::None => match escape_code_switch(name) {
            Option::Some(c) => Some(c),
            Option::None => match escape_code_wii(name) {
                Option::Some(c) => Some(c),
                Option::None => escape_code_ds(name),
            },
        },
    }
}

} // verus!
