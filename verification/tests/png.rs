use glint_screenshot::chunks::{find_hazard, Hazard};
use glint_screenshot::deflate::overtaxes;
use glint_screenshot::image::Argb32Image;
use glint_screenshot::png::{
    png_bytes_to_surface, surface_from_png, PngColors, PngError, PngPixels,
    PngSamples,
};

const RGBA_2X1: [u8; 74] = [
    0x89, 0x50, 0x4E, 0x47, 0x0D, 0x0A, 0x1A, 0x0A, 0x00, 0x00, 0x00, 0x0D,
    0x49, 0x48, 0x44, 0x52, 0x00, 0x00, 0x00, 0x02, 0x00, 0x00, 0x00, 0x01,
    0x08, 0x06, 0x00, 0x00, 0x00, 0xF4, 0x22, 0x7F, 0x8A, 0x00, 0x00, 0x00,
    0x11, 0x49, 0x44, 0x41, 0x54, 0x78, 0xDA, 0x63, 0xF8, 0xCF, 0xC0, 0xF5,
    0x3F, 0xE5, 0x84, 0x51, 0x03, 0x00, 0x12, 0x04, 0x03, 0xE7, 0xDD, 0xE2,
    0xCA, 0x72, 0x00, 0x00, 0x00, 0x00, 0x49, 0x45, 0x4E, 0x44, 0xAE, 0x42,
    0x60, 0x82,
];

const RGB_1X2: [u8; 73] = [
    0x89, 0x50, 0x4E, 0x47, 0x0D, 0x0A, 0x1A, 0x0A, 0x00, 0x00, 0x00, 0x0D,
    0x49, 0x48, 0x44, 0x52, 0x00, 0x00, 0x00, 0x01, 0x00, 0x00, 0x00, 0x02,
    0x08, 0x02, 0x00, 0x00, 0x00, 0x16, 0xE3, 0x21, 0x70, 0x00, 0x00, 0x00,
    0x10, 0x49, 0x44, 0x41, 0x54, 0x78, 0xDA, 0x63, 0x60, 0x64, 0x62, 0x66,
    0xF8, 0xF5, 0xFB, 0x0F, 0x00, 0x06, 0x0A, 0x02, 0xF8, 0xA4, 0x29, 0x76,
    0x42, 0x00, 0x00, 0x00, 0x00, 0x49, 0x45, 0x4E, 0x44, 0xAE, 0x42, 0x60,
    0x82,
];

const GRAY_1X1: [u8; 67] = [
    0x89, 0x50, 0x4E, 0x47, 0x0D, 0x0A, 0x1A, 0x0A, 0x00, 0x00, 0x00, 0x0D,
    0x49, 0x48, 0x44, 0x52, 0x00, 0x00, 0x00, 0x01, 0x00, 0x00, 0x00, 0x01,
    0x08, 0x00, 0x00, 0x00, 0x00, 0x3A, 0x7E, 0x9B, 0x55, 0x00, 0x00, 0x00,
    0x0A, 0x49, 0x44, 0x41, 0x54, 0x78, 0xDA, 0x63, 0xF0, 0x05, 0x00, 0x00,
    0x4F, 0x00, 0x4E, 0xC4, 0x03, 0x7B, 0xE1, 0x00, 0x00, 0x00, 0x00, 0x49,
    0x45, 0x4E, 0x44, 0xAE, 0x42, 0x60, 0x82,
];

const DEEP_1X1: [u8; 72] = [
    0x89, 0x50, 0x4E, 0x47, 0x0D, 0x0A, 0x1A, 0x0A, 0x00, 0x00, 0x00, 0x0D,
    0x49, 0x48, 0x44, 0x52, 0x00, 0x00, 0x00, 0x01, 0x00, 0x00, 0x00, 0x01,
    0x10, 0x02, 0x00, 0x00, 0x00, 0xC0, 0xE7, 0x8F, 0x9D, 0x00, 0x00, 0x00,
    0x0F, 0x49, 0x44, 0x41, 0x54, 0x78, 0xDA, 0x63, 0x60, 0x64, 0x62, 0x66,
    0x61, 0x65, 0x03, 0x00, 0x00, 0x3F, 0x00, 0x16, 0x98, 0xC1, 0x68, 0x13,
    0x00, 0x00, 0x00, 0x00, 0x49, 0x45, 0x4E, 0x44, 0xAE, 0x42, 0x60, 0x82,
];

const TIGHT: [u8; 517] = [
    0x78, 0x9C, 0x00, 0x08, 0x00, 0xF7, 0xFF, 0x00, 0x01, 0x02, 0x03, 0x04,
    0x05, 0x06, 0x07, 0x4A, 0xCB, 0xAC, 0x48, 0x4D, 0x51, 0x48, 0xCE, 0x4F,
    0x49, 0x2D, 0x56, 0x48, 0x1B, 0x01, 0x6C, 0x00, 0x00, 0x00, 0x00, 0xFF,
    0xFF, 0x6C, 0x51, 0x41, 0x0E, 0xC0, 0x20, 0x08, 0xFB, 0xCA, 0xBE, 0xA6,
    0x99, 0x71, 0x07, 0x4D, 0x4C, 0xB6, 0x13, 0xAF, 0x9F, 0xC0, 0x06, 0xD2,
    0xED, 0x20, 0xB1, 0x50, 0x5A, 0xC4, 0x9A, 0x7A, 0x4F, 0x5B, 0x2E, 0x57,
    0xDA, 0xF6, 0xD2, 0x66, 0x24, 0xBE, 0xA6, 0x36, 0x8E, 0x37, 0x32, 0x2E,
    0xE3, 0x7C, 0x50, 0x15, 0xBE, 0x63, 0xBE, 0x65, 0x6C, 0x51, 0x25, 0x8D,
    0x9A, 0x59, 0x28, 0xDC, 0xB1, 0x96, 0xA2, 0xBE, 0x10, 0xC9, 0x42, 0x34,
    0xC2, 0x56, 0x50, 0x65, 0x24, 0x29, 0x1D, 0x52, 0x99, 0xF9, 0x2B, 0xE3,
    0x6F, 0x30, 0x1F, 0x54, 0x9A, 0x87, 0x40, 0xCE, 0xAB, 0x14, 0xC9, 0xB0,
    0x88, 0x65, 0x8D, 0x3E, 0x2F, 0x4E, 0xE5, 0x15, 0xCD, 0x56, 0xFF, 0x06,
    0xB3, 0xA5, 0x80, 0xFE, 0xC6, 0x5F, 0x15, 0xC8, 0xBD, 0xF1, 0x8F, 0x70,
    0xEF, 0x66, 0x23, 0xC4, 0x1B, 0x00, 0x00, 0xFF, 0xFF, 0xEC, 0xC1, 0x31,
    0x01, 0x00, 0x00, 0x00, 0xC2, 0xA0, 0xF5, 0x4F, 0xED, 0x65, 0x0B, 0xA0,
    0x00, 0x00, 0x00, 0x00, 0x00, 0x00, 0x00, 0x00, 0x00, 0x00, 0x00, 0x00,
    0x00, 0x00, 0x00, 0x00, 0x00, 0x00, 0x00, 0x00, 0x00, 0x00, 0x00, 0x00,
    0x00, 0x00, 0x00, 0x00, 0x00, 0x00, 0x00, 0x00, 0x00, 0x00, 0x00, 0x00,
    0x00, 0x00, 0x80, 0x1B, 0x00, 0x00, 0x00, 0xFF, 0xFF, 0xE5, 0xFD, 0x01,
    0x90, 0x24, 0x49, 0x92, 0x24, 0x49, 0x22, 0xB1, 0xA8, 0x79, 0x64, 0xF5,
    0xEC, 0x01, 0x00, 0x00, 0x00, 0x00, 0x00, 0x00, 0x00, 0x00, 0x00, 0x00,
    0x00, 0x00, 0x00, 0x00, 0x00, 0x00, 0x00, 0x00, 0x00, 0x00, 0x00, 0x00,
    0x00, 0x00, 0x00, 0x00, 0x00, 0x00, 0x00, 0x00, 0x00, 0x00, 0x00, 0x00,
    0x00, 0x00, 0x00, 0x00, 0x00, 0x00, 0x00, 0x00, 0x00, 0x00, 0x00, 0x00,
    0x00, 0x00, 0x00, 0x00, 0x00, 0x00, 0x00, 0x00, 0x00, 0x00, 0x00, 0x00,
    0x00, 0x00, 0x00, 0x00, 0x00, 0x00, 0x00, 0x00, 0x00, 0x00, 0x00, 0x00,
    0x00, 0x00, 0x00, 0x00, 0x00, 0x00, 0x00, 0x00, 0x00, 0x00, 0x00, 0x00,
    0x00, 0x00, 0x00, 0x00, 0x00, 0x00, 0x00, 0x00, 0x00, 0x00, 0x00, 0x00,
    0x00, 0x00, 0x00, 0x00, 0x00, 0x00, 0x00, 0x00, 0x00, 0x00, 0x00, 0x00,
    0x00, 0x00, 0x00, 0x00, 0x00, 0x00, 0x00, 0x00, 0x00, 0x00, 0x00, 0x00,
    0x00, 0x00, 0x3C, 0x00, 0x00, 0x00, 0x00, 0x00, 0x00, 0x00, 0x00, 0x00,
    0x00, 0x00, 0x00, 0x00, 0x3C, 0x12, 0x8B, 0x9A, 0x47, 0x56, 0xCF, 0x1E,
    0x00, 0x00, 0x00, 0x00, 0x00, 0x00, 0xC0, 0x3F, 0x00, 0x00, 0x00, 0x00,
    0x00, 0x00, 0x00, 0x00, 0x00, 0x00, 0x00, 0x00, 0x00, 0x00, 0x00, 0x00,
    0x00, 0x00, 0x00, 0x00, 0x00, 0x00, 0x00, 0x00, 0x00, 0x00, 0x00, 0x00,
    0x00, 0x00, 0x00, 0x00, 0x00, 0x00, 0x00, 0x00, 0x00, 0x00, 0x00, 0x00,
    0x00, 0x00, 0x00, 0x00, 0x00, 0x00, 0x00, 0x00, 0x00, 0x00, 0x00, 0x00,
    0x00, 0x00, 0x00, 0x00, 0x00, 0x00, 0x00, 0x00, 0x00, 0x00, 0x00, 0x00,
    0x00, 0x00, 0x00, 0x00, 0x00, 0x00, 0x00, 0x00, 0x00, 0x00, 0x00, 0xFF,
    0xFB, 0xFF, 0xFB, 0xFF, 0xFF, 0xFF, 0xBF, 0xDD, 0x6E, 0xB7, 0xDB, 0xED,
    0x76, 0xBB, 0xDD, 0x6E, 0xB7, 0xDB, 0xED, 0x76, 0xBB, 0xDD, 0x6E, 0xB7,
    0xDB, 0xED, 0x76, 0xBB, 0xDD, 0x6E, 0xB7, 0xDB, 0xED, 0x76, 0xBB, 0xDD,
    0x6E, 0xB7, 0xDB, 0xED, 0x76, 0xBB, 0xFD, 0xFF, 0x00, 0x08, 0xBC, 0x0F,
    0x03,
];

const ROOMY: [u8; 517] = [
    0x78, 0x9C, 0x00, 0x08, 0x00, 0xF7, 0xFF, 0x00, 0x01, 0x02, 0x03, 0x04,
    0x05, 0x06, 0x07, 0x4A, 0xCB, 0xAC, 0x48, 0x4D, 0x51, 0x48, 0xCE, 0x4F,
    0x49, 0x2D, 0x56, 0x48, 0x1B, 0x01, 0x6C, 0x00, 0x00, 0x00, 0x00, 0xFF,
    0xFF, 0x6C, 0x51, 0x41, 0x0E, 0xC0, 0x20, 0x08, 0xFB, 0xCA, 0xBE, 0xA6,
    0x99, 0x71, 0x07, 0x4D, 0x4C, 0xB6, 0x13, 0xAF, 0x9F, 0xC0, 0x06, 0xD2,
    0xED, 0x20, 0xB1, 0x50, 0x5A, 0xC4, 0x9A, 0x7A, 0x4F, 0x5B, 0x2E, 0x57,
    0xDA, 0xF6, 0xD2, 0x66, 0x24, 0xBE, 0xA6, 0x36, 0x8E, 0x37, 0x32, 0x2E,
    0xE3, 0x7C, 0x50, 0x15, 0xBE, 0x63, 0xBE, 0x65, 0x6C, 0x51, 0x25, 0x8D,
    0x9A, 0x59, 0x28, 0xDC, 0xB1, 0x96, 0xA2, 0xBE, 0x10, 0xC9, 0x42, 0x34,
    0xC2, 0x56, 0x50, 0x65, 0x24, 0x29, 0x1D, 0x52, 0x99, 0xF9, 0x2B, 0xE3,
    0x6F, 0x30, 0x1F, 0x54, 0x9A, 0x87, 0x40, 0xCE, 0xAB, 0x14, 0xC9, 0xB0,
    0x88, 0x65, 0x8D, 0x3E, 0x2F, 0x4E, 0xE5, 0x15, 0xCD, 0x56, 0xFF, 0x06,
    0xB3, 0xA5, 0x80, 0xFE, 0xC6, 0x5F, 0x15, 0xC8, 0xBD, 0xF1, 0x8F, 0x70,
    0xEF, 0x66, 0x23, 0xC4, 0x1B, 0x00, 0x00, 0xFF, 0xFF, 0xEC, 0xC1, 0x31,
    0x01, 0x00, 0x00, 0x00, 0xC2, 0xA0, 0xF5, 0x4F, 0xED, 0x65, 0x0B, 0xA0,
    0x00, 0x00, 0x00, 0x00, 0x00, 0x00, 0x00, 0x00, 0x00, 0x00, 0x00, 0x00,
    0x00, 0x00, 0x00, 0x00, 0x00, 0x00, 0x00, 0x00, 0x00, 0x00, 0x00, 0x00,
    0x00, 0x00, 0x00, 0x00, 0x00, 0x00, 0x00, 0x00, 0x00, 0x00, 0x00, 0x00,
    0x00, 0x00, 0x80, 0x1B, 0x00, 0x00, 0x00, 0xFF, 0xFF, 0xE5, 0xFD, 0x01,
    0x90, 0x24, 0x49, 0x92, 0x24, 0x49, 0x22, 0xB1, 0xA8, 0x79, 0x64, 0xF5,
    0xEC, 0x01, 0x00, 0x00, 0x00, 0x00, 0x00, 0x00, 0x00, 0x00, 0x00, 0x00,
    0x00, 0x00, 0x00, 0x00, 0x00, 0x00, 0x00, 0x00, 0x00, 0x00, 0x00, 0x00,
    0x00, 0x00, 0x00, 0x00, 0x00, 0x00, 0x00, 0x00, 0x00, 0x00, 0x00, 0x00,
    0x00, 0x00, 0x00, 0x00, 0x00, 0x00, 0x00, 0x00, 0x00, 0x00, 0x00, 0x00,
    0x00, 0x00, 0x00, 0x00, 0x00, 0x00, 0x00, 0x00, 0x00, 0x00, 0x00, 0x00,
    0x00, 0x00, 0x00, 0x00, 0x00, 0x00, 0x00, 0x00, 0x00, 0x00, 0x00, 0x00,
    0x00, 0x00, 0x00, 0x00, 0x00, 0x00, 0x00, 0x00, 0x00, 0x00, 0x00, 0x00,
    0x00, 0x00, 0x00, 0x00, 0x00, 0x00, 0x00, 0x00, 0x00, 0x00, 0x00, 0x00,
    0x00, 0x00, 0x00, 0x00, 0x00, 0x00, 0x00, 0x00, 0x00, 0x00, 0x00, 0x00,
    0x00, 0x00, 0x00, 0x00, 0x00, 0x00, 0x00, 0x00, 0x00, 0x00, 0x00, 0x00,
    0x00, 0x00, 0x3C, 0x00, 0x00, 0x00, 0x00, 0x00, 0x00, 0x00, 0x00, 0x00,
    0x00, 0x00, 0x00, 0x00, 0x3C, 0x12, 0x8B, 0x9A, 0x47, 0x56, 0xCF, 0x1E,
    0x00, 0x00, 0x00, 0x00, 0x00, 0x00, 0xC0, 0x3F, 0x00, 0x00, 0x00, 0x00,
    0x00, 0x00, 0x00, 0x00, 0x00, 0x00, 0x00, 0x00, 0x00, 0x00, 0x00, 0x00,
    0x00, 0x00, 0x00, 0x00, 0x00, 0x00, 0x00, 0x00, 0x00, 0x00, 0x00, 0x00,
    0x00, 0x00, 0x00, 0x00, 0x00, 0x00, 0x00, 0x00, 0x00, 0x00, 0x00, 0x00,
    0x00, 0x00, 0x00, 0x00, 0x00, 0x00, 0x00, 0x00, 0x00, 0x00, 0x00, 0x00,
    0x00, 0x00, 0x00, 0x00, 0x00, 0x00, 0x00, 0x00, 0x00, 0x00, 0x00, 0x00,
    0x00, 0x00, 0x00, 0x00, 0x00, 0x00, 0x00, 0x00, 0x00, 0x00, 0x80, 0x00,
    0xFE, 0xF7, 0xFF, 0xF7, 0xFF, 0xFF, 0xFF, 0x7F, 0xBB, 0xDD, 0x6E, 0xB7,
    0xDB, 0xED, 0x76, 0xBB, 0xDD, 0x6E, 0xB7, 0xDB, 0xED, 0x76, 0xBB, 0xDD,
    0x6E, 0xB7, 0xDB, 0xED, 0x76, 0xBB, 0xDD, 0x6E, 0xB7, 0xDB, 0xED, 0x76,
    0xBB, 0xDD, 0x6E, 0xB7, 0xDB, 0xED, 0xF6, 0xFF, 0x03, 0x5D, 0x73, 0x0E,
    0xFF,
];

const SHORT: [u8; 478] = [
    0x78, 0x9C, 0x00, 0x08, 0x00, 0xF7, 0xFF, 0x00, 0x01, 0x02, 0x03, 0x04,
    0x05, 0x06, 0x07, 0x4A, 0xCB, 0xAC, 0x48, 0x4D, 0x51, 0x48, 0xCE, 0x4F,
    0x49, 0x2D, 0x56, 0x48, 0x1B, 0x01, 0x6C, 0x00, 0x00, 0x00, 0x00, 0xFF,
    0xFF, 0x6C, 0x51, 0x41, 0x0E, 0xC0, 0x20, 0x08, 0xFB, 0xCA, 0xBE, 0xA6,
    0x99, 0x71, 0x07, 0x4D, 0x4C, 0xB6, 0x13, 0xAF, 0x9F, 0xC0, 0x06, 0xD2,
    0xED, 0x20, 0xB1, 0x50, 0x5A, 0xC4, 0x9A, 0x7A, 0x4F, 0x5B, 0x2E, 0x57,
    0xDA, 0xF6, 0xD2, 0x66, 0x24, 0xBE, 0xA6, 0x36, 0x8E, 0x37, 0x32, 0x2E,
    0xE3, 0x7C, 0x50, 0x15, 0xBE, 0x63, 0xBE, 0x65, 0x6C, 0x51, 0x25, 0x8D,
    0x9A, 0x59, 0x28, 0xDC, 0xB1, 0x96, 0xA2, 0xBE, 0x10, 0xC9, 0x42, 0x34,
    0xC2, 0x56, 0x50, 0x65, 0x24, 0x29, 0x1D, 0x52, 0x99, 0xF9, 0x2B, 0xE3,
    0x6F, 0x30, 0x1F, 0x54, 0x9A, 0x87, 0x40, 0xCE, 0xAB, 0x14, 0xC9, 0xB0,
    0x88, 0x65, 0x8D, 0x3E, 0x2F, 0x4E, 0xE5, 0x15, 0xCD, 0x56, 0xFF, 0x06,
    0xB3, 0xA5, 0x80, 0xFE, 0xC6, 0x5F, 0x15, 0xC8, 0xBD, 0xF1, 0x8F, 0x70,
    0xEF, 0x66, 0x23, 0xC4, 0x1B, 0x00, 0x00, 0xFF, 0xFF, 0xEC, 0xC1, 0x31,
    0x01, 0x00, 0x00, 0x00, 0xC2, 0xA0, 0xF5, 0x4F, 0xED, 0x65, 0x0B, 0xA0,
    0x00, 0x00, 0x00, 0x00, 0x00, 0x00, 0x00, 0x00, 0x00, 0x00, 0x00, 0x00,
    0x00, 0x00, 0x00, 0x00, 0x00, 0x00, 0x00, 0x00, 0x00, 0x00, 0x00, 0x00,
    0x00, 0x00, 0x00, 0x00, 0x00, 0x00, 0x00, 0x00, 0x00, 0x00, 0x00, 0x00,
    0x00, 0x00, 0x80, 0x1B, 0x00, 0x00, 0x00, 0xFF, 0xFF, 0xE5, 0xFD, 0x01,
    0x90, 0x24, 0x49, 0x92, 0x24, 0x49, 0x22, 0xB1, 0xA8, 0x79, 0x64, 0xF5,
    0xEC, 0x01, 0x00, 0x00, 0x00, 0x00, 0x00, 0x00, 0x00, 0x00, 0x00, 0x00,
    0x00, 0x00, 0x00, 0x00, 0x00, 0x00, 0x00, 0x00, 0x00, 0x00, 0x00, 0x00,
    0x00, 0x00, 0x00, 0x00, 0x00, 0x00, 0x00, 0x00, 0x00, 0x00, 0x00, 0x00,
    0x00, 0x00, 0x00, 0x00, 0x00, 0x00, 0x00, 0x00, 0x00, 0x00, 0x00, 0x00,
    0x00, 0x00, 0x00, 0x00, 0x00, 0x00, 0x00, 0x00, 0x00, 0x00, 0x00, 0x00,
    0x00, 0x00, 0x00, 0x00, 0x00, 0x00, 0x00, 0x00, 0x00, 0x00, 0x00, 0x00,
    0x00, 0x00, 0x00, 0x00, 0x00, 0x00, 0x00, 0x00, 0x00, 0x00, 0x00, 0x00,
    0x00, 0x00, 0x00, 0x00, 0x00, 0x00, 0x00, 0x00, 0x00, 0x00, 0x00, 0x00,
    0x00, 0x00, 0x00, 0x00, 0x00, 0x00, 0x00, 0x00, 0x00, 0x00, 0x00, 0x00,
    0x00, 0x00, 0x00, 0x00, 0x00, 0x00, 0x00, 0x00, 0x00, 0x00, 0x00, 0x00,
    0x00, 0x00, 0x3C, 0x00, 0x00, 0x00, 0x00, 0x00, 0x00, 0x00, 0x00, 0x00,
    0x00, 0x00, 0x00, 0x00, 0x3C, 0x12, 0x8B, 0x9A, 0x47, 0x56, 0xCF, 0x1E,
    0x00, 0x00, 0x00, 0x00, 0x00, 0x00, 0xC0, 0x3F, 0x00, 0x00, 0x00, 0x00,
    0x00, 0x00, 0x00, 0x00, 0x00, 0x00, 0x00, 0x00, 0x00, 0x00, 0x00, 0x00,
    0x00, 0x00, 0x00, 0x00, 0x00, 0x00, 0x00, 0x00, 0x00, 0x00, 0x00, 0x00,
    0x00, 0x00, 0x00, 0x00, 0x00, 0x00, 0x00, 0x00, 0x00, 0x00, 0x00, 0x00,
    0x00, 0x00, 0x00, 0x00, 0x00, 0x00, 0x00, 0x00, 0x00, 0x00, 0x00, 0x00,
    0x00, 0x00, 0x00, 0x00, 0x00, 0x00, 0x00, 0x00, 0x00, 0x00, 0x00, 0x00,
    0x00, 0x00, 0x00, 0x00, 0x00, 0x00, 0x00, 0x00, 0x00, 0x00, 0x80, 0x00,
    0xFE, 0xF7, 0xFF, 0xF7, 0xFF, 0xFF, 0xFF, 0xFF, 0xFF, 0x03,
];

fn decoded(bytes: &[u8]) -> Argb32Image {
    match png_bytes_to_surface(bytes) {
        Ok(image) => image,
        Err(e) => panic!("not decoded: {:?}", e),
    }
}

fn refused(pixels: PngPixels) -> PngError {
    match surface_from_png(pixels) {
        Ok(_) => panic!("not refused"),
        Err(e) => e,
    }
}

fn eight(samples: Vec<u8>, w: usize, h: usize, colors: Option<PngColors>) -> PngPixels {
    PngPixels { samples: PngSamples::Eight(samples), dimensions: Some((w, h)), colors }
}

#[test]
fn rgba_file_is_premultiplied() {
    let image = decoded(&RGBA_2X1);
    assert_eq!(image.width(), 2);
    assert_eq!(image.height(), 1);
    // 100 * 128 / 255 == 50, 200 * 128 / 255 == 100, 50 * 128 / 255 == 25
    assert_eq!(image.data(), &[10, 0, 255, 255, 25, 100, 50, 128][..]);
}

#[test]
fn rgb_file_becomes_opaque() {
    let image = decoded(&RGB_1X2);
    assert_eq!((image.width(), image.height()), (1, 2));
    assert_eq!(image.data(), &[3, 2, 1, 255, 252, 251, 250, 255][..]);
}

#[test]
fn gray_file_is_refused() {
    assert!(matches!(png_bytes_to_surface(&GRAY_1X1), Err(PngError::Colorspace)));
}

#[test]
fn deep_file_is_refused() {
    assert!(matches!(png_bytes_to_surface(&DEEP_1X1), Err(PngError::SixteenBit)));
}

#[test]
fn garbage_is_refused() {
    assert!(matches!(png_bytes_to_surface(&[1, 2, 3, 4, 5]), Err(PngError::Decode)));
    assert!(matches!(png_bytes_to_surface(&[]), Err(PngError::Decode)));
    let cut = &RGBA_2X1[..40];
    assert!(matches!(png_bytes_to_surface(cut), Err(PngError::Decode)));
}

fn crc32(bytes: &[u8]) -> u32 {
    let mut crc = u32::MAX;
    for byte in bytes {
        crc ^= u32::from(*byte);
        for _ in 0..8 {
            crc = if crc & 1 == 1 { (crc >> 1) ^ 0xEDB8_8320 } else { crc >> 1 };
        }
    }
    !crc
}

fn chunk(kind: &[u8], data: &[u8]) -> Vec<u8> {
    let body = [kind, data].concat();
    let crc = crc32(&body).to_be_bytes();
    [&(data.len() as u32).to_be_bytes()[..], &body[..], &crc[..]].concat()
}

/// A file with an RGB image of this size, and these chunks between the first and
/// the last one.
fn file(w: u32, h: u32, chunks: &[Vec<u8>]) -> Vec<u8> {
    let mut header = [w.to_be_bytes(), h.to_be_bytes()].concat();
    header.extend_from_slice(&[8, 2, 0, 0, 0]);
    let mut out = vec![0x89, b'P', b'N', b'G', 13, 10, 26, 10];
    out.extend(chunk(b"IHDR", &header));
    out.extend(chunks.concat());
    out.extend(chunk(b"IEND", &[]));
    out
}

/// The data as a zlib stream that does not compress.
fn stored(data: &[u8]) -> Vec<u8> {
    let (mut a, mut b) = (1u32, 0u32);
    for byte in data {
        a = (a + u32::from(*byte)) % 65521;
        b = (b + a) % 65521;
    }
    let n = data.len() as u16;
    let mut out = vec![0x78, 0x01, 1];
    out.extend_from_slice(&n.to_le_bytes());
    out.extend_from_slice(&(!n).to_le_bytes());
    out.extend_from_slice(data);
    out.extend_from_slice(&((b << 16) | a).to_be_bytes());
    out
}

fn frame(number: u32, w: u32, h: u32) -> Vec<u8> {
    let mut data = [number, w, h, 0, 0].map(u32::to_be_bytes).concat();
    data.extend_from_slice(&[0, 1, 0, 10, 0, 0]);
    chunk(b"fcTL", &data)
}

fn two_pixels() -> Vec<u8> {
    chunk(b"IDAT", &stored(&[0, 1, 2, 3, 4, 5, 6]))
}

fn assert_two_pixels(bytes: &[u8]) {
    assert_eq!(find_hazard(bytes), None);
    let image = decoded(bytes);
    assert_eq!((image.width(), image.height()), (2, 1));
    assert_eq!(image.data(), &[3, 2, 1, 255, 6, 5, 4, 255][..]);
}

#[test]
fn later_frames_may_have_any_size() {
    let animation = chunk(b"acTL", &[0, 0, 0, 2, 0, 0, 0, 0]);
    let later = chunk(b"fdAT", &[&[0, 0, 0, 2][..], &stored(&[0, 9, 9, 9])].concat());
    let frames = vec![animation, frame(0, 2, 1), two_pixels(), frame(1, 1, 1), later];
    assert_two_pixels(&file(2, 1, &frames));
    // The image need not be a frame at all.
    let later = chunk(b"fdAT", &[&[0, 0, 0, 1][..], &stored(&[0, 9, 9, 9])].concat());
    assert_two_pixels(&file(2, 1, &[two_pixels(), frame(0, 1, 1), later]));
}

#[test]
fn words_in_other_chunks_are_no_frames() {
    let text = chunk(b"tEXt", b"a\0\0\0\0\x1AfcTL\0\0\0\0\0\0\0\x09\0\0\0\x09");
    assert_two_pixels(&file(2, 1, &[text, two_pixels()]));
}

#[test]
fn the_images_own_frame_has_its_size() {
    let bytes = file(2, 1, &[frame(0, 9, 1), two_pixels()]);
    assert_eq!(find_hazard(&bytes), Some(Hazard::Frame));
    assert!(matches!(png_bytes_to_surface(&bytes), Err(PngError::Animation)));
    assert_two_pixels(&file(2, 1, &[frame(0, 2, 1), two_pixels()]));
}

/// A file with an interlaced RGB image.
fn interlaced(w: u32, h: u32, chunks: &[Vec<u8>]) -> Vec<u8> {
    let mut out = file(w, h, chunks);
    out[28] = 1;
    let crc = crc32(&out[12..29]).to_be_bytes();
    out[29..33].copy_from_slice(&crc);
    out
}

#[test]
fn the_images_own_frame_may_be_smaller() {
    // Two rows of one pixel each fill the first two of four pixels.
    let data = chunk(b"IDAT", &stored(&[0, 1, 2, 3, 0, 4, 5, 6]));
    let bytes = file(2, 2, &[frame(0, 1, 2), data.clone()]);
    assert_eq!(find_hazard(&bytes), None);
    let image = decoded(&bytes);
    assert_eq!((image.width(), image.height()), (2, 2));
    assert_eq!(
        image.into_data(),
        vec![3, 2, 1, 255, 6, 5, 4, 255, 0, 0, 0, 255, 0, 0, 0, 255]
    );
    // The last chunk of image data decides.
    let halves = [frame(0, 9, 9), chunk(b"IDAT", &[]), frame(1, 1, 2), data.clone()];
    assert_eq!(find_hazard(&file(2, 2, &halves)), None);
    // Interlaced, the second row would have no place.
    let bytes = interlaced(2, 2, &[frame(0, 1, 2), data]);
    assert_eq!(find_hazard(&bytes), Some(Hazard::Frame));
    assert!(matches!(png_bytes_to_surface(&bytes), Err(PngError::Animation)));
}

#[test]
fn the_images_own_frame_may_be_empty() {
    let bytes = file(2, 1, &[frame(0, 0, 1), chunk(b"IDAT", &stored(&[0]))]);
    assert_eq!(decoded(&bytes).into_data(), vec![0, 0, 0, 255, 0, 0, 0, 255]);
    let bytes = file(2, 1, &[frame(0, 2, 0), chunk(b"IDAT", &stored(&[0]))]);
    assert_eq!(decoded(&bytes).into_data(), vec![0, 0, 0, 255, 0, 0, 0, 255]);
}

#[test]
fn interlaced_frames_of_the_full_width() {
    let data = chunk(b"IDAT", &stored(&[0, 1, 2, 3, 0, 4, 5, 6]));
    let bytes = interlaced(2, 2, &[frame(0, 2, 1), data]);
    assert_eq!(find_hazard(&bytes), None);
    assert_eq!(
        decoded(&bytes).into_data(),
        vec![3, 2, 1, 255, 6, 5, 4, 255, 0, 0, 0, 255, 0, 0, 0, 255]
    );
}

#[test]
fn late_transparency_of_a_smaller_frame() {
    let data = chunk(b"IDAT", &stored(&[0, 1, 2, 3]));
    let clear = chunk(b"tRNS", &[0, 1, 0, 2, 0, 3]);
    let late = [frame(0, 1, 1), data.clone(), frame(1, 1, 1), clear.clone()];
    assert_eq!(find_hazard(&file(2, 2, &late)), Some(Hazard::Frame));
    let early = [clear, frame(0, 1, 1), data];
    let bytes = file(2, 2, &early);
    assert_eq!(find_hazard(&bytes), None);
    let image = decoded(&bytes);
    assert_eq!((image.width(), image.height()), (2, 2));
    assert_eq!(image.into_data()[..4], [0, 0, 0, 0]);
}

#[test]
fn frame_data_without_a_frame_of_its_own() {
    // Behind another chunk than its fcTL, an fdAT adds to the image.
    let numbered = |data: &[u8]| chunk(b"fdAT", &[&[0, 0, 0, 1][..], data].concat());
    let text = chunk(b"tEXt", b"a\0b");
    let size = frame(0, 13901, 1);
    let bytes = file(13901, 1, &[size.clone(), text.clone(), numbered(&TIGHT)]);
    assert_eq!(find_hazard(&bytes), Some(Hazard::Stream));
    assert!(matches!(png_bytes_to_surface(&bytes), Err(PngError::Stream)));
    let start = chunk(b"IDAT", &TIGHT[..50]);
    let bytes = file(13901, 1, &[size.clone(), start, numbered(&TIGHT[50..])]);
    assert_eq!(find_hazard(&bytes), Some(Hazard::Stream));
    // Right behind it, it opens a frame, and what follows goes there too.
    let other = numbered(&[]);
    let bytes = file(13901, 1, &[size, other, text, numbered(&TIGHT)]);
    assert_eq!(find_hazard(&bytes), None);
    // The image in two kinds of chunks.
    let pixels = stored(&[0, 1, 2, 3, 4, 5, 6]);
    let start = chunk(b"IDAT", &pixels[..9]);
    assert_two_pixels(&file(2, 1, &[frame(0, 2, 1), start, numbered(&pixels[9..])]));
}

#[test]
fn frames_need_a_sequence_number() {
    let short = chunk(b"fdAT", &[0, 0, 0]);
    let bytes = file(2, 1, &[frame(0, 2, 1), two_pixels(), frame(1, 1, 1), short]);
    assert!(matches!(png_bytes_to_surface(&bytes), Err(PngError::Animation)));
}

#[test]
fn streams_that_take_too_many_bits() {
    // 59 bits are taken at a place where 56 are at hand.
    assert!(overtaxes(&TIGHT));
    let bytes = file(13901, 1, &[chunk(b"IDAT", &TIGHT)]);
    assert!(matches!(png_bytes_to_surface(&bytes), Err(PngError::Stream)));
    // Split over two chunks it is the same stream.
    let halves = [chunk(b"IDAT", &TIGHT[..100]), chunk(b"IDAT", &TIGHT[100..])];
    assert_eq!(find_hazard(&file(13901, 1, &halves)), Some(Hazard::Stream));
}

#[test]
fn the_same_bits_where_there_is_room() {
    // 59 bits are taken where 63 are at hand.
    assert!(!overtaxes(&ROOMY));
    let image = decoded(&file(13903, 1, &[chunk(b"IDAT", &ROOMY)]));
    assert_eq!((image.width(), image.height()), (13903, 1));
    assert_eq!(image.data()[..8], [3, 2, 1, 255, 6, 5, 4, 255]);
    assert_eq!(image.data()[55608..], [2, 3, 2, 255]);
}

#[test]
fn streams_that_run_out_of_bits() {
    // With this many bytes to follow, the bits for the next code are missing;
    // with one less they are waited for, with one more they are there.
    for (after, expected) in [(4, false), (5, true), (6, false)] {
        let stream = [&SHORT[..], &vec![0; after][..]].concat();
        assert_eq!(overtaxes(&stream), expected, "{}", after);
    }
}

#[test]
fn streams_that_are_no_zlib_streams() {
    assert!(!overtaxes(&[]));
    let mut other = TIGHT;
    other[0] = 0x79;
    assert!(!overtaxes(&other));
}

#[test]
fn profiles_and_texts_are_streams_too() {
    let profile = chunk(b"iCCP", &[&b"name\0\0"[..], &TIGHT].concat());
    let bytes = file(2, 1, &[profile, two_pixels()]);
    assert!(matches!(png_bytes_to_surface(&bytes), Err(PngError::Stream)));
    let text = chunk(b"zTXt", &[&b"name\0\0"[..], &TIGHT].concat());
    assert_eq!(find_hazard(&file(2, 1, &[text, two_pixels()])), Some(Hazard::Stream));
    // A broken profile does no harm.
    let broken = chunk(b"iCCP", b"name\0\0not a profile");
    assert_two_pixels(&file(2, 1, &[broken, two_pixels()]));
}

#[test]
fn samples_are_checked_before_dimensions() {
    let deep = PngPixels { samples: PngSamples::Sixteen, dimensions: None, colors: None };
    assert_eq!(refused(deep), PngError::SixteenBit);
    let other = PngPixels { samples: PngSamples::Other, dimensions: None, colors: None };
    assert_eq!(refused(other), PngError::Unsupported);
    let unsized_ = PngPixels {
        samples: PngSamples::Eight(vec![]),
        dimensions: None,
        colors: Some(PngColors::Other),
    };
    assert_eq!(refused(unsized_), PngError::NoDimensions);
}

#[test]
fn dimensions_are_checked() {
    assert_eq!(
        refused(eight(vec![], 0, 3, None)),
        PngError::InvalidDimensions { w: 0, h: 3 }
    );
    assert_eq!(
        refused(eight(vec![], 1, 0xFFFF_FFFF, None)),
        PngError::InvalidDimensions { w: 1, h: -1 }
    );
    assert_eq!(refused(eight(vec![], 1, 1, Some(PngColors::Other))), PngError::Colorspace);
    assert_eq!(refused(eight(vec![], 32768, 1, Some(PngColors::Rgb))), PngError::TooLarge);
}

#[test]
fn missing_color_space_means_rgba() {
    let image = match surface_from_png(eight(vec![255, 255, 255, 0], 1, 1, None)) {
        Ok(image) => image,
        Err(e) => panic!("{:?}", e),
    };
    // A transparent pixel is black.
    assert_eq!(image.into_data(), vec![0, 0, 0, 0]);
}

#[test]
fn opaque_pixels_keep_their_colors() {
    let rgb = surface_from_png(eight(vec![9, 8, 7], 1, 1, Some(PngColors::Rgb)));
    let rgba = surface_from_png(eight(vec![9, 8, 7, 255], 1, 1, Some(PngColors::Rgba)));
    match (rgb, rgba) {
        (Ok(a), Ok(b)) => assert_eq!(a.data(), b.data()),
        _ => panic!("refused"),
    }
}
