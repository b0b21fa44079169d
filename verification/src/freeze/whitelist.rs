//! The packages that are never frozen, whatever the configuration says.
use vstd::prelude::*;
use crate::text::{chars_of, chars_eq, concat_chars};

verus! {

/// Number of name prefixes in [`PREFIXES`].
pub const PREFIXES_LEN: usize = 11;

/// Prefixes that many of the names share.
pub const PREFIXES: [&'static str; 11] = [
    "",
    "com.android.",
    "com.google.android.",
    "com.miui.",
    "org.lineageos.",
    "com.mediatek.",
    "com.xiaomi.",
    "com.iflytek.",
    "com.sohu.",
    "com.",
    "android.",
];

/// Number of entries in [`WHITE_LIST`].
pub const WHITE_LIST_LEN: usize = 363;

/// System services, launchers, input methods and other packages whose
/// processes must keep running: each name is a prefix of [`PREFIXES`]
/// (by position) followed by the rest of the name.
pub const WHITE_LIST: [(usize, &'static str); 363] = [
    // (no shared prefix)
    (0, "app.lawnchair"),
    (0, "bitpit.launcher"),
    (0, "com xiaomi.aireco"),
    (0, "im.weshine.keyboard"),
    (0, "lineageos.platform.auto_generated_rro_product__"),
    (0, "lineageos.platform.auto_generated_rro_vendor__"),
    (0, "name.mikanoshi.customiuizer"),
    (0, "name.monwf.customiuizer"),
    (0, "one.yufz.hmspush"),
    (0, "org.codeaurora.ims"),
    (0, "org.lsposed.manager"),
    (0, "org.meowcat.xposed.mipush"),
    (0, "org.protonaosp.deviceconfig"),
    (0, "org.protonaosp.deviceconfig.auto_generated_rro_product__"),
    (0, "top.canyie.dreamland.manager"),
    (0, "top.trumeet.mipush"),
    // com.android.
    (1, "adservices.api"),
    (1, "apps.tag"),
    (1, "backupconfirm"),
    (1, "bips"),
    (1, "bluetoothmidiservice"),
    (1, "bookmarkprovider"),
    (1, "camera"),
    (1, "camera2"),
    (1, "cameraextensions"),
    (1, "captiveportallogin"),
    (1, "carrierconfig"),
    (1, "carrierconfig.auto_generated_rro_vendor__"),
    (1, "carrierconfig.overlay.miui"),
    (1, "carrierdefaultapp"),
    (1, "cellbroadcastreceiver.module"),
    (1, "certinstaller"),
    (1, "companiondevicemanager"),
    (1, "connectivity.resources"),
    (1, "contacts"),
    (1, "cts.ctsshim"),
    (1, "cts.priv.ctsshim"),
    (1, "deskclock"),
    (1, "dialer"),
    (1, "documentsui.auto_generated_rro_product__"),
    (1, "dreams.basic"),
    (1, "dreams.phototable"),
    (1, "egg"),
    (1, "emergency"),
    (1, "emergency.auto_generated_rro_product__"),
    (1, "externalstorage"),
    (1, "hotspot2.osulogin"),
    (1, "htmlviewer"),
    (1, "imsserviceentitlement"),
    (1, "imsserviceentitlement.auto_generated_rro_product__"),
    (1, "incallui"),
    (1, "incallui.overlay"),
    (1, "inputmethod.latin"),
    (1, "inputmethod.latin.auto_generated_rro_product__"),
    (1, "intentresolver"),
    (1, "internal.display.cutout.emulation.corner"),
    (1, "internal.display.cutout.emulation.double"),
    (1, "internal.display.cutout.emulation.hole"),
    (1, "internal.display.cutout.emulation.noCutout"),
    (1, "internal.display.cutout.emulation.tall"),
    (1, "internal.display.cutout.emulation.waterfall"),
    (1, "internal.systemui.navbar.gestural"),
    (1, "internal.systemui.navbar.gestural_extra_wide_back"),
    (1, "internal.systemui.navbar.gestural_narrow_back"),
    (1, "internal.systemui.navbar.gestural_wide_back"),
    (1, "internal.systemui.navbar.threebutton"),
    (1, "internal.systemui.navbar.twobutton"),
    (1, "launcher"),
    (1, "launcher2"),
    (1, "launcher3"),
    (1, "launcher3.overlay"),
    (1, "launcher4"),
    (1, "managedprovisioning"),
    (1, "managedprovisioning.auto_generated_rro_product__"),
    (1, "managedprovisioning.overlay"),
    (1, "messaging"),
    (1, "mms"),
    (1, "modulemetadata"),
    (1, "mtp"),
    (1, "musicfx"),
    (1, "nearby.halfsheet"),
    (1, "networkstack.inprocess.overlay"),
    (1, "networkstack.overlay"),
    (1, "networkstack.tethering.inprocess.overlay"),
    (1, "networkstack.tethering.overlay"),
    (1, "ondevicepersonalization.services"),
    (1, "onetimeinitializer"),
    (1, "overlay.cngmstelecomm"),
    (1, "overlay.gmscontactprovider"),
    (1, "overlay.gmssettingprovider"),
    (1, "overlay.gmssettings"),
    (1, "overlay.gmstelecomm"),
    (1, "overlay.gmstelephony"),
    (1, "overlay.systemui"),
    (1, "packageinstaller"),
    (1, "pacprocessor"),
    (1, "permissioncontroller"),
    (1, "phone.auto_generated_rro_vendor__"),
    (1, "phone.overlay.miui"),
    (1, "printservice.recommendation"),
    (1, "printspooler"),
    (1, "providers.calendar"),
    (1, "providers.contacts"),
    (1, "providers.downloads.ui"),
    (1, "providers.media.module"),
    (1, "providers.settings.auto_generated_rro_product__"),
    (1, "providers.settings.auto_generated_rro_vendor__"),
    (1, "providers.settings.overlay"),
    (1, "proxyhandler"),
    (1, "safetycenter.resources"),
    (1, "sdksandbox"),
    (1, "server.telecom.overlay.miui"),
    (1, "settings.auto_generated_rro_product__"),
    (1, "settings.intelligence"),
    (1, "settings.overlay.miui"),
    (1, "sharedstoragebackup"),
    (1, "simappdialog"),
    (1, "smspush"),
    (1, "soundpicker"),
    (1, "soundrecorder"),
    (1, "statementservice"),
    (1, "stk.overlay.miui"),
    (1, "storagemanager"),
    (1, "storagemanager.auto_generated_rro_product__"),
    (1, "systemui"),
    (1, "systemui.auto_generated_rro_product__"),
    (1, "systemui.auto_generated_rro_vendor__"),
    (1, "systemui.gesture.line.overlay"),
    (1, "systemui.navigation.bar.overlay"),
    (1, "systemui.overlay.miui"),
    (1, "systemui.plugin.globalactions.wallet"),
    (1, "theme.font.notoserifsource"),
    (1, "traceur"),
    (1, "uwb.resources"),
    (1, "vending"),
    (1, "vpndialogs"),
    (1, "wallpaper"),
    (1, "wallpaper.auto_generated_rro_product__"),
    (1, "wallpaper.livepicker"),
    (1, "wallpapercropper"),
    (1, "wallpaperpicker"),
    (1, "wifi.dialog"),
    (1, "wifi.resources"),
    (1, "wifi.resources.oneplus_sdm845"),
    (1, "wifi.resources.overlay"),
    (1, "wifi.resources.xiaomi"),
    (1, "wifi.system.mainline.resources.overlay"),
    (1, "wifi.system.resources.overlay"),
    // com.google.android.
    (2, "adservices.api"),
    (2, "apps.customization.pixel"),
    (2, "apps.messaging"),
    (2, "apps.nexuslauncher"),
    (2, "apps.photos"),
    (2, "apps.restore"),
    (2, "apps.wallpaper"),
    (2, "apps.wallpaper.nexus"),
    (2, "apps.wellbeing"),
    (2, "as"),
    (2, "as.oss"),
    (2, "calendar"),
    (2, "captiveportallogin"),
    (2, "cellbroadcastreceiver"),
    (2, "cellbroadcastreceiver.overlay.miui"),
    (2, "cellbroadcastservice.overlay.miui"),
    (2, "configupdater"),
    (2, "connectivity.resources"),
    (2, "contacts"),
    (2, "deskclock"),
    (2, "devicelockcontroller"),
    (2, "dialer"),
    (2, "documentsui"),
    (2, "ext.services"),
    (2, "ext.shared"),
    (2, "feedback"),
    (2, "gms"),
    (2, "gms.supervision"),
    (2, "googlequicksearchbox"),
    (2, "gsf"),
    (2, "healthconnect.controller"),
    (2, "hotspot2.osulogin"),
    (2, "inputmethod.latin"),
    (2, "markup"),
    (2, "modulemetadata"),
    (2, "odad"),
    (2, "ondevicepersonalization.services"),
    (2, "onetimeinitializer"),
    (2, "overlay.gmsconfig"),
    (2, "overlay.modules.ext.services"),
    (2, "packageinstaller"),
    (2, "partnersetup"),
    (2, "permissioncontroller"),
    (2, "printservice.recommendation"),
    (2, "projection.gearhead"),
    (2, "providers.media.module"),
    (2, "rkpdapp"),
    (2, "safetycenter.resources"),
    (2, "settings.intelligence"),
    (2, "soundpicker"),
    (2, "systemui.gxoverlay"),
    (2, "tag"),
    (2, "trichromelibrary_511209734"),
    (2, "trichromelibrary_541411734"),
    (2, "tts"),
    (2, "uwb.resources"),
    (2, "webview"),
    (2, "wifi.resources"),
    // com.miui.
    (3, "accessibility"),
    (3, "calculator"),
    (3, "carlink"),
    (3, "compass"),
    (3, "core"),
    (3, "core.internal.services"),
    (3, "face.overlay.miui"),
    (3, "home"),
    (3, "mediaeditor"),
    (3, "miwallpaper.overlay.customize"),
    (3, "miwallpaper.wallpaperoverlay.config.overlay"),
    (3, "notes"),
    (3, "packageinstaller"),
    (3, "personalassistant"),
    (3, "privacycomputing"),
    (3, "rom"),
    (3, "securityadd"),
    (3, "securityinputmethod"),
    (3, "settings.rro.device.config.overlay"),
    (3, "settings.rro.device.hide.statusbar.overlay"),
    (3, "settings.rro.device.type.overlay"),
    (3, "system"),
    (3, "system.overlay"),
    (3, "systemAdSolution"),
    (3, "systemui.carriers.overlay"),
    (3, "systemui.devices.overlay"),
    (3, "systemui.overlay.devices.android"),
    (3, "translation.kingsoft"),
    (3, "translation.xmcloud"),
    (3, "translationservice"),
    (3, "vipservice"),
    (3, "voiceassistoverlay"),
    (3, "vpnsdkmanager"),
    (3, "wallpaper.overlay.customize"),
    // org.lineageos.
    (4, "aperture"),
    (4, "aperture.auto_generated_rro_vendor__"),
    (4, "audiofx"),
    (4, "backgrounds"),
    (4, "customization"),
    (4, "eleven"),
    (4, "etar"),
    (4, "jelly"),
    (4, "lineageparts.auto_generated_rro_product__"),
    (4, "lineagesettings.auto_generated_rro_product__"),
    (4, "lineagesettings.auto_generated_rro_vendor__"),
    (4, "overlay.customization.blacktheme"),
    (4, "overlay.customization.navbar.nohint"),
    (4, "overlay.font.lato"),
    (4, "overlay.font.rubik"),
    (4, "profiles"),
    (4, "recorder"),
    (4, "settings.device.auto_generated_rro_product__"),
    (4, "settings.doze.auto_generated_rro_product__"),
    (4, "settings.doze.auto_generated_rro_vendor__"),
    (4, "setupwizard.auto_generated_rro_product__"),
    (4, "updater"),
    (4, "updater.auto_generated_rro_product__"),
    // com.mediatek.
    (5, "FrameworkResOverlayExt"),
    (5, "SettingsProviderResOverlay"),
    (5, "batterywarning"),
    (5, "callrecorder"),
    (5, "cellbroadcastuiresoverlay"),
    (5, "duraspeed"),
    (5, "engineermode"),
    (5, "frameworkresoverlay"),
    (5, "gbaservice"),
    (5, "lbs.em2.ui"),
    (5, "location.mtkgeofence"),
    (5, "mdmconfig"),
    (5, "mdmlsample"),
    (5, "miravision.ui"),
    (5, "op01.telecom"),
    (5, "op09clib.phone.plugin"),
    (5, "op09clib.telecom"),
    (5, "voiceunlock"),
    (5, "ygps"),
    // com.xiaomi.
    (6, "account"),
    (6, "barrage"),
    (6, "bluetooth.rro.device.config.overlay"),
    (6, "mibrain.speech"),
    (6, "misettings"),
    (6, "scanner"),
    (6, "xmsf"),
    (6, "xmsfkeeper"),
    // com.iflytek.
    (7, "inputmethod"),
    (7, "inputmethod.blackshark"),
    (7, "inputmethod.custom"),
    (7, "inputmethod.googleplay"),
    (7, "inputmethod.miui"),
    (7, "inputmethod.oem"),
    (7, "inputmethod.oppo"),
    (7, "inputmethod.smartisan"),
    (7, "inputmethod.zte"),
    (7, "inputmethods.DungkarIME"),
    // com.sohu.
    (8, "input_yijia"),
    (8, "inputmethod.sogou"),
    (8, "inputmethod.sogou.chuizi"),
    (8, "inputmethod.sogou.meizu"),
    (8, "inputmethod.sogou.moto"),
    (8, "inputmethod.sogou.nubia"),
    (8, "inputmethod.sogou.samsung"),
    (8, "inputmethod.sogou.xiaomi"),
    (8, "inputmethod.sogou.zte"),
    // com.
    (9, "baidu.input"),
    (9, "baidu.input_huawei"),
    (9, "baidu.input_mi"),
    (9, "baidu.input_oppo"),
    (9, "baidu.input_vivo"),
    (9, "baidu.input_yijia"),
    (9, "coloros.packageinstaller"),
    (9, "debug.loggerui"),
    (9, "diotek.sec.lookup.dictionary"),
    (9, "fingerprints.sensortesttool"),
    (9, "gau.go.launcherex"),
    (9, "hola.launcher"),
    (9, "huawei.hwid"),
    (9, "iqoo.packageinstaller"),
    (9, "jinkey.unfoldedime"),
    (9, "komoxo.octopusime"),
    (9, "kongzue.secretinput"),
    (9, "lbe.security.miui"),
    (9, "lxlm.lhl.softkeyboard"),
    (9, "merxury.blocker"),
    (9, "mfashiongallery.emag"),
    (9, "mi.android.globallauncher"),
    (9, "mi.health"),
    (9, "microsoft.launcher"),
    (9, "onlyone.onlyonestarter"),
    (9, "oplus.packageinstaller"),
    (9, "oppo.launcher"),
    (9, "oyun.qingcheng"),
    (9, "qualcomm.qti.cne"),
    (9, "qualcomm.qti.poweroffalarm"),
    (9, "qualcomm.timeservice"),
    (9, "qualcomm.wfd.service"),
    (9, "qujianpan.duoduo"),
    (9, "samsung.accessory.neobeanmgr"),
    (9, "samsung.app.newtrim"),
    (9, "sevtinge.hyperceiler"),
    (9, "tencent.mm.wxa.sce"),
    (9, "tencent.qqpinyin"),
    (9, "tencent.soter.soterserver"),
    (9, "teslacoilsw.launcher"),
    (9, "touchtype.swiftkey"),
    (9, "touchtype.swiftkey.beta"),
    (9, "transsion.XOSLauncher"),
    (9, "unionpay.tsmservice.mi"),
    (9, "vivo.packageinstaller"),
    (9, "wpengapp.lightstart"),
    (9, "ziipin.softkeyboard"),
    // android.
    (10, "aosp.overlay"),
    (10, "auto_generated_rro_product__"),
    (10, "auto_generated_rro_vendor__"),
    (10, "ext.services"),
    (10, "ext.shared"),
    (10, "miui.home.launcher.res"),
    (10, "miui.overlay"),
];

/// The full name of entry `i` of [`WHITE_LIST`].
pub open spec fn whitelist_name(i: int) -> Seq<char> {
    PREFIXES@[WHITE_LIST@[i].0 as int]@ + WHITE_LIST@[i].1@
}

/// `p` is one of the names in [`WHITE_LIST`].
pub open spec fn builtin_whitelisted(p: Seq<char>) -> bool {
    exists|i: int|
        0 <= i < WHITE_LIST_LEN && WHITE_LIST@[i].0 < PREFIXES_LEN && #[trigger] whitelist_name(i) == p
}

/// Whether the package named `p` is in [`WHITE_LIST`].
pub fn is_builtin_whitelisted(p: &Vec<char>) -> (b: bool)
    ensures
        b == builtin_whitelisted(p@),
{
    let mut i: usize = 0;
    while i < WHITE_LIST_LEN
        invariant
            i <= WHITE_LIST_LEN,
            forall|j: int|
                0 <= j < i && WHITE_LIST@[j].0 < PREFIXES_LEN ==> #[trigger] whitelist_name(j) != p@,
        decreases WHITE_LIST_LEN - i,
    {
        let (k, rest) = WHITE_LIST[i];
        if k < PREFIXES_LEN {
            let name = concat_chars(&chars_of(PREFIXES[k]), &chars_of(rest));
            assert(name@ == whitelist_name(i as int));
            if chars_eq(&name, p) {
                return true;
            }
        }
        i = i + 1;
    }
    false
}

} // verus!
