use std::sync::Arc;

use pilatus::logo::{
    EncodedImage, FallbackLogo, InvalidLogoHeight, LogoDimension, LogoQuery, LogoService,
    LogoServiceImpl, LogoServiceTrait,
};
use pilatus::name::Name;

static MAIN: [u8; 3] = [1, 2, 3];
static DARK: [u8; 2] = [9, 9];
static DARK2: [u8; 1] = [7];
static THEMES: [(&str, &[u8]); 3] = [("dark", &DARK), ("in valid!", &DARK), ("dark", &DARK2)];

fn query(theme: Option<&str>) -> LogoQuery {
    let mut q = LogoQuery::default_query();
    q.theme = theme.map(|t| Name::parse(t).unwrap());
    q
}

#[test]
fn logo_dimensions_are_bounded() {
    assert_eq!(InvalidLogoHeight(0), LogoDimension::try_from_u16(0).err().unwrap());
    assert_eq!(InvalidLogoHeight(10001), LogoDimension::try_from_u16(10001).err().unwrap());
    assert_eq!(1, LogoDimension::try_from_u16(1).unwrap().get());
    assert_eq!(10000, LogoDimension::try_from_u16(10000).unwrap().get());
    assert_eq!(300, LogoDimension::default_dimension().get());
}

#[test]
fn default_query_has_no_theme() {
    let q = LogoQuery::default_query();
    assert!(q.theme.is_none());
    assert_eq!(300, q.height.get());
    assert_eq!(300, q.width.get());
}

#[test]
fn fallback_logo_keeps_valid_themes() {
    let logo = FallbackLogo::with_themes(&MAIN, &THEMES);
    let (main, themes) = logo.into_images();
    assert_eq!(vec![1, 2, 3], main.0);
    let names: Vec<&str> = themes.iter().map(|(n, _)| n.as_str()).collect();
    assert_eq!(vec!["dark", "dark"], names);
    assert!(FallbackLogo::new(&MAIN).into_images().1.is_empty());
}

#[test]
fn themed_logo_or_main_logo() {
    let (main, themes) = FallbackLogo::with_themes(&MAIN, &THEMES).into_images();
    let service = LogoServiceImpl::new(main, themes);
    assert_eq!(vec![7], service.lookup(&query(Some("dark"))).0);
    assert_eq!(vec![1, 2, 3], service.lookup(&query(Some("light"))).0);
    assert_eq!(vec![1, 2, 3], service.lookup(&query(None)).0);
}

#[test]
fn shared_logo_service_answers_through_implementation() {
    let service = LogoServiceImpl::new(EncodedImage(vec![5]), vec![]);
    let shared: LogoService<dyn LogoServiceTrait> = LogoService::new(Arc::new(service));
    let copy = shared.clone();
    assert_eq!(vec![5], copy.get(&query(Some("any"))).0);
}
