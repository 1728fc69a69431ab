use rootcause::i18n::{current_lang, set_lang, tr, Lang, LangSetting};

#[test]
fn tr_respeta_el_idioma_activo() {
    let mut setting = LangSetting::new();
    set_lang(&mut setting, Lang::Es);
    assert_eq!(tr(&setting, "Resumen", "Overview"), "Resumen");
    set_lang(&mut setting, Lang::En);
    assert_eq!(tr(&setting, "Resumen", "Overview"), "Overview");
    set_lang(&mut setting, Lang::Es);
}

#[test]
fn lang_roundtrip_u8() {
    assert_eq!(Lang::from_u8(Lang::En.as_u8()), Lang::En);
    assert_eq!(Lang::from_u8(Lang::Es.as_u8()), Lang::Es);
    assert_eq!(Lang::from_u8(99), Lang::Es);
}

#[test]
fn new_setting_starts_in_spanish() {
    let setting = LangSetting::new();
    assert_eq!(current_lang(&setting), Lang::Es);
    assert_eq!(tr(&setting, "Procesos", "Processes"), "Procesos");
}

#[test]
fn language_codes_and_names() {
    assert_eq!(Lang::Es.code(), "es");
    assert_eq!(Lang::En.code(), "en");
    assert_eq!(Lang::Es.native_name(), "Español");
    assert_eq!(Lang::En.native_name(), "English");
    assert_eq!(Lang::Es.as_u8(), 0);
    assert_eq!(Lang::En.as_u8(), 1);
    assert_eq!(Lang::from_u8(1), Lang::En);
    assert_eq!(Lang::from_u8(0), Lang::Es);
}
